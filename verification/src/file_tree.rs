//! The sidebar file tree: a recursive rendering of the content tree
//! into nested, collapsible HTML lists, with the entry for the current
//! route expanded and emphasized.

use vstd::prelude::*;

use crate::frontmatter::trim_spec;
use crate::text::{
    at, chars_string, copy_range, ends_with, find_from, index_of_from, lemma_find_from, match_at,
    prefix_eq, push_all, push_range, starts_with, str_chars, suffix_eq,
};

verus! {

broadcast use vstd::std_specs::vec::group_vec_axioms, vstd::seq::group_seq_axioms;

/// One entry of the content tree: its display name, its route path,
/// and its children when it is a directory.
pub struct FileNode {
    pub name: String,
    pub path: String,
    pub is_dir: bool,
    pub children: Vec<FileNode>,
}

/// Whether a node is the one the current route shows: its path is the
/// route, it is the root entry while the route is the site root, or it
/// is a directory the route descends into.
pub open spec fn node_is_current(n: FileNode, route: Seq<char>) -> bool {
    n.path@ == route || (route == "/"@ && n.path@.len() == 0) || (n.is_dir && starts_with(
        route,
        seq!['/'] + n.path@,
    ))
}

/// Whether a child lies on the current route.
pub open spec fn child_on_route(c: FileNode, route: Seq<char>) -> bool {
    route == c.path@ || (route == "/"@ && c.path@.len() == 0) || starts_with(
        route,
        seq!['/'] + c.path@,
    )
}

/// Whether a directory renders expanded: it is current, or one of its
/// children lies on the route.
pub open spec fn node_expanded(n: FileNode, route: Seq<char>) -> bool {
    node_is_current(n, route) || exists|i: int|
        0 <= i < n.children@.len() && child_on_route(n.children@[i], route)
}

/// The icon class of a file entry, by its extension.
pub open spec fn icon_class_spec(path: Seq<char>) -> Seq<char> {
    if ends_with(path, ".md"@) {
        "ph filetree-icon filetree-page ph-file-text"@
    } else if ends_with(path, ".webp"@) || ends_with(path, ".jpg"@) || ends_with(path, ".jpeg"@)
        || ends_with(path, ".png"@) {
        "ph ph-image filetree-image"@
    } else if ends_with(path, ".gif"@) {
        "ph ph-gif filetree-gif"@
    } else if ends_with(path, ".mp4"@) || ends_with(path, ".webm"@) || ends_with(path, ".mov"@) {
        "ph ph-video filetree-video"@
    } else {
        "ph ph-file"@
    }
}

/// The rendered HTML of one node.
pub open spec fn render_node_spec(n: FileNode, route: Seq<char>) -> Seq<char>
    decreases n, 0int, 0int via render_node_spec_decreases
{
    if n.is_dir {
        let rot: Seq<char> = if node_expanded(n, route) {
            "rotate-90"@
        } else {
            Seq::empty()
        };
        let bold: Seq<char> = if node_is_current(n, route) {
            "font-bold"@
        } else {
            Seq::empty()
        };
        let hidden: Seq<char> = if node_expanded(n, route) {
            Seq::empty()
        } else {
            "hidden"@
        };
        "<li class=\"directory mb-1\">\n<div class=\"folder-label flex items-center cursor-pointer text-neutral-600 dark:text-neutral-200 py-1\">\n<span class=\"toggle-icon transform transition-transform duration-200 mr-1 "@
            + rot
            + "\"><i class=\"ph filetree-icon filetree-folder ph-caret-right\"></i></span>\n<span class=\"folder-name text-sm "@
            + bold + "\">"@ + n.name@ + "</span>\n</div>\n"@ + "<ul class=\"folder-contents "@
            + hidden + " ml-4\">\n"@ + render_children_spec(n.children@, 0, route)
            + "</ul>\n</li>\n"@
    } else {
        let bold: Seq<char> = if node_is_current(n, route) {
            "font-bold"@
        } else {
            Seq::empty()
        };
        "<li class=\"file mb-1\">\n<a href=\"/"@ + n.path@ + "\" class=\"file-link "@ + bold
            + "\">\n<i class=\""@ + icon_class_spec(n.path@) + " mr-1\"></i>"@ + n.name@
            + "\n</a>\n</li>\n"@
    }
}

/// The rendered HTML of the children from index `i` on.
pub open spec fn render_children_spec(cs: Seq<FileNode>, i: int, route: Seq<char>) -> Seq<char>
    decreases cs, 1int, cs.len() - i when 0 <= i <= cs.len() via render_children_spec_decreases
{
    if i >= cs.len() {
        Seq::empty()
    } else {
        render_node_spec(cs[i], route) + render_children_spec(cs, i + 1, route)
    }
}

#[via_fn]
proof fn render_node_spec_decreases(n: FileNode, route: Seq<char>) {
    assert(decreases_to!(n => n.children));
    assert(decreases_to!(n.children => n.children@));
}

#[via_fn]
proof fn render_children_spec_decreases(cs: Seq<FileNode>, i: int, route: Seq<char>) {
    if 0 <= i < cs.len() {
        assert(decreases_to!(cs => cs[i]));
    }
}

fn node_is_current_exec(n: &FileNode, route: &Vec<char>) -> (r: bool)
    ensures
        r == node_is_current(*n, route@),
{
    let pv = str_chars(n.path.as_str());
    proof {
        reveal_strlit("/");
    }
    if crate::paths::vec_eq(route, &pv) {
        return true;
    }
    let slash = str_chars("/");
    if crate::paths::vec_eq(route, &slash) && pv.len() == 0 {
        proof {
            assert(route@ == "/"@);
        }
        return true;
    }
    if n.is_dir {
        let mut slash_path: Vec<char> = Vec::new();
        slash_path.push('/');
        push_all(&mut slash_path, &pv);
        proof {
            assert(slash_path@ =~= seq!['/'] + n.path@);
        }
        if prefix_eq(route, &slash_path) {
            return true;
        }
    }
    false
}

fn child_on_route_exec(c: &FileNode, route: &Vec<char>) -> (r: bool)
    ensures
        r == child_on_route(*c, route@),
{
    let pv = str_chars(c.path.as_str());
    proof {
        reveal_strlit("/");
    }
    if crate::paths::vec_eq(route, &pv) {
        return true;
    }
    let slash = str_chars("/");
    if crate::paths::vec_eq(route, &slash) && pv.len() == 0 {
        return true;
    }
    let mut slash_path: Vec<char> = Vec::new();
    slash_path.push('/');
    push_all(&mut slash_path, &pv);
    proof {
        assert(slash_path@ =~= seq!['/'] + c.path@);
    }
    prefix_eq(route, &slash_path)
}

fn node_expanded_exec(n: &FileNode, route: &Vec<char>) -> (r: bool)
    ensures
        r == node_expanded(*n, route@),
{
    if node_is_current_exec(n, route) {
        return true;
    }
    let mut i: usize = 0;
    while i < n.children.len()
        invariant
            0 <= i <= n.children@.len(),
            forall|j: int| 0 <= j < i ==> !child_on_route(n.children@[j], route@),
        decreases n.children@.len() - i,
    {
        if child_on_route_exec(&n.children[i], route) {
            return true;
        }
        i += 1;
    }
    false
}

/// Renders one node of the file tree, expanding and emphasizing the
/// entries the current route passes through.
#[verifier::rlimit(100)]
pub fn render_file_node(node: &FileNode, current_route: &str) -> (r: String)
    ensures
        r@ == render_node_spec(*node, current_route@),
    decreases *node,
{
    let route = str_chars(current_route);
    let mut out: Vec<char> = Vec::new();
    if node.is_dir {
        proof {
            reveal_strlit(
                "<li class=\"directory mb-1\">\n<div class=\"folder-label flex items-center cursor-pointer text-neutral-600 dark:text-neutral-200 py-1\">\n<span class=\"toggle-icon transform transition-transform duration-200 mr-1 ",
            );
            reveal_strlit("rotate-90");
            reveal_strlit(
                "\"><i class=\"ph filetree-icon filetree-folder ph-caret-right\"></i></span>\n<span class=\"folder-name text-sm ",
            );
            reveal_strlit("font-bold");
            reveal_strlit("\">");
            reveal_strlit("</span>\n</div>\n");
            reveal_strlit("<ul class=\"folder-contents ");
            reveal_strlit("hidden");
            reveal_strlit(" ml-4\">\n");
            reveal_strlit("</ul>\n</li>\n");
        }
        let expanded = node_expanded_exec(node, &route);
        let current = node_is_current_exec(node, &route);
        let head = str_chars(
            "<li class=\"directory mb-1\">\n<div class=\"folder-label flex items-center cursor-pointer text-neutral-600 dark:text-neutral-200 py-1\">\n<span class=\"toggle-icon transform transition-transform duration-200 mr-1 ",
        );
        push_all(&mut out, &head);
        if expanded {
            let rot = str_chars("rotate-90");
            push_all(&mut out, &rot);
        }
        let mid_a = str_chars(
            "\"><i class=\"ph filetree-icon filetree-folder ph-caret-right\"></i></span>\n<span class=\"folder-name text-sm ",
        );
        push_all(&mut out, &mid_a);
        if current {
            let bold = str_chars("font-bold");
            push_all(&mut out, &bold);
        }
        let mid_b = str_chars("\">");
        push_all(&mut out, &mid_b);
        let name_v = str_chars(node.name.as_str());
        push_all(&mut out, &name_v);
        let mid_c = str_chars("</span>\n</div>\n");
        push_all(&mut out, &mid_c);
        let ul_open = str_chars("<ul class=\"folder-contents ");
        push_all(&mut out, &ul_open);
        if !expanded {
            let hidden = str_chars("hidden");
            push_all(&mut out, &hidden);
        }
        let ml = str_chars(" ml-4\">\n");
        push_all(&mut out, &ml);
        let ghost base = out@;
        let mut i: usize = 0;
        proof {
            assert(base + render_children_spec(node.children@, 0, route@) == base
                + render_children_spec(node.children@, 0, route@));
        }
        while i < node.children.len()
            invariant
                0 <= i <= node.children@.len(),
                route@ == current_route@,
                out@ + render_children_spec(node.children@, i as int, route@) == base
                    + render_children_spec(node.children@, 0, route@),
            decreases node.children@.len() - i,
        {
            proof {
                assert(decreases_to!(*node => node.children));
                assert(decreases_to!(node.children => node.children@));
                assert(decreases_to!(node.children@ => node.children@[i as int]));
            }
            let child_html = render_file_node(&node.children[i], current_route);
            let cv = str_chars(child_html.as_str());
            push_all(&mut out, &cv);
            proof {
                assert(render_children_spec(node.children@, i as int, route@) == render_node_spec(
                    node.children@[i as int],
                    route@,
                ) + render_children_spec(node.children@, (i + 1) as int, route@));
                assert(out@ + render_children_spec(node.children@, (i + 1) as int, route@) =~= base
                    + render_children_spec(node.children@, 0, route@));
            }
            i += 1;
        }
        proof {
            assert(render_children_spec(node.children@, node.children@.len() as int, route@)
                =~= Seq::<char>::empty());
            assert(out@ =~= base + render_children_spec(node.children@, 0, route@));
        }
        let tail = str_chars("</ul>\n</li>\n");
        push_all(&mut out, &tail);
        proof {
            assert(out@ =~= render_node_spec(*node, current_route@));
        }
    } else {
        proof {
            reveal_strlit("<li class=\"file mb-1\">\n<a href=\"/");
            reveal_strlit("\" class=\"file-link ");
            reveal_strlit("font-bold");
            reveal_strlit("\">\n<i class=\"");
            reveal_strlit(" mr-1\"></i>");
            reveal_strlit("\n</a>\n</li>\n");
        }
        let current = node_is_current_exec(node, &route);
        let head = str_chars("<li class=\"file mb-1\">\n<a href=\"/");
        push_all(&mut out, &head);
        let path_v = str_chars(node.path.as_str());
        push_all(&mut out, &path_v);
        let mid_a = str_chars("\" class=\"file-link ");
        push_all(&mut out, &mid_a);
        if current {
            let bold = str_chars("font-bold");
            push_all(&mut out, &bold);
        }
        let mid_b = str_chars("\">\n<i class=\"");
        push_all(&mut out, &mid_b);
        let icon = icon_class_exec(&path_v);
        push_all(&mut out, &icon);
        let mid_c = str_chars(" mr-1\"></i>");
        push_all(&mut out, &mid_c);
        let name_v = str_chars(node.name.as_str());
        push_all(&mut out, &name_v);
        let tail = str_chars("\n</a>\n</li>\n");
        push_all(&mut out, &tail);
        proof {
            assert(out@ =~= render_node_spec(*node, current_route@));
        }
    }
    chars_string(&out)
}

fn icon_class_exec(path: &Vec<char>) -> (r: Vec<char>)
    ensures
        r@ == icon_class_spec(path@),
{
    proof {
        reveal_strlit(".md");
        reveal_strlit(".webp");
        reveal_strlit(".jpg");
        reveal_strlit(".jpeg");
        reveal_strlit(".png");
        reveal_strlit(".gif");
        reveal_strlit(".mp4");
        reveal_strlit(".webm");
        reveal_strlit(".mov");
    }
    let md = str_chars(".md");
    let webp = str_chars(".webp");
    let jpg = str_chars(".jpg");
    let jpeg = str_chars(".jpeg");
    let png = str_chars(".png");
    let gif = str_chars(".gif");
    let mp4 = str_chars(".mp4");
    let webm = str_chars(".webm");
    let mov = str_chars(".mov");
    if suffix_eq(path, &md) {
        str_chars("ph filetree-icon filetree-page ph-file-text")
    } else if suffix_eq(path, &webp) || suffix_eq(path, &jpg) || suffix_eq(path, &jpeg)
        || suffix_eq(path, &png) {
        str_chars("ph ph-image filetree-image")
    } else if suffix_eq(path, &gif) {
        str_chars("ph ph-gif filetree-gif")
    } else if suffix_eq(path, &mp4) || suffix_eq(path, &webm) || suffix_eq(path, &mov) {
        str_chars("ph ph-video filetree-video")
    } else {
        str_chars("ph ph-file")
    }
}

/// The rendered HTML of a whole file tree.
pub open spec fn file_tree_html_spec(nodes: Seq<FileNode>, route: Seq<char>) -> Seq<char> {
    "<div class=\"file-tree\">\n<ul>\n"@ + render_children_spec(nodes, 0, route)
        + "</ul>\n</div>"@
}

/// Renders the whole file tree for a page at the given route.
pub fn generate_file_tree_html(nodes: &Vec<FileNode>, current_route: &str) -> (r: String)
    ensures
        r@ == file_tree_html_spec(nodes@, current_route@),
{
    proof {
        reveal_strlit("<div class=\"file-tree\">\n<ul>\n");
        reveal_strlit("</ul>\n</div>");
    }
    let mut out = str_chars("<div class=\"file-tree\">\n<ul>\n");
    let ghost base = out@;
    let mut i: usize = 0;
    while i < nodes.len()
        invariant
            0 <= i <= nodes@.len(),
            out@ + render_children_spec(nodes@, i as int, current_route@) == base
                + render_children_spec(nodes@, 0, current_route@),
        decreases nodes@.len() - i,
    {
        let html = render_file_node(&nodes[i], current_route);
        let hv = str_chars(html.as_str());
        push_all(&mut out, &hv);
        proof {
            assert(render_children_spec(nodes@, i as int, current_route@) == render_node_spec(
                nodes@[i as int],
                current_route@,
            ) + render_children_spec(nodes@, (i + 1) as int, current_route@));
            assert(out@ + render_children_spec(nodes@, (i + 1) as int, current_route@) =~= base
                + render_children_spec(nodes@, 0, current_route@));
        }
        i += 1;
    }
    proof {
        assert(render_children_spec(nodes@, nodes@.len() as int, current_route@) =~= Seq::<
            char,
        >::empty());
        assert(out@ =~= base + render_children_spec(nodes@, 0, current_route@));
    }
    let tail = str_chars("</ul>\n</div>");
    push_all(&mut out, &tail);
    proof {
        assert(out@ =~= file_tree_html_spec(nodes@, current_route@));
    }
    chars_string(&out)
}

/// `s` with every occurrence of `pat`, found left to right without
/// overlap, replaced by `rep`, from position `i` on.
pub open spec fn replace_from(s: Seq<char>, i: int, pat: Seq<char>, rep: Seq<char>) -> Seq<char>
    decreases s.len() - i when 0 <= i <= s.len() && pat.len() >= 1
{
    if i >= s.len() {
        Seq::empty()
    } else if at(s, i, pat) {
        rep + replace_from(s, i + pat.len(), pat, rep)
    } else {
        seq![s[i]] + replace_from(s, i + 1, pat, rep)
    }
}

/// `s` with every occurrence of `pat` replaced by `rep`, as
/// `str::replace` does it.
pub open spec fn replace_spec(s: Seq<char>, pat: Seq<char>, rep: Seq<char>) -> Seq<char> {
    replace_from(s, 0, pat, rep)
}

fn replace_all(s: &Vec<char>, pat: &Vec<char>, rep: &Vec<char>) -> (r: Vec<char>)
    requires
        pat@.len() >= 1,
    ensures
        r@ == replace_spec(s@, pat@, rep@),
{
    let n = s.len();
    let mut out: Vec<char> = Vec::new();
    let mut i: usize = 0;
    while i < n
        invariant
            0 <= i <= n == s@.len(),
            pat@.len() >= 1,
            out@ + replace_from(s@, i as int, pat@, rep@) == replace_spec(s@, pat@, rep@),
        decreases n - i,
    {
        if match_at(s, i, pat) {
            push_all(&mut out, rep);
            proof {
                assert(out@ + replace_from(s@, i + pat@.len(), pat@, rep@) =~= replace_spec(
                    s@,
                    pat@,
                    rep@,
                ));
            }
            i = i + pat.len();
        } else {
            out.push(s[i]);
            proof {
                assert(out@ + replace_from(s@, (i + 1) as int, pat@, rep@) =~= replace_spec(
                    s@,
                    pat@,
                    rep@,
                ));
            }
            i += 1;
        }
    }
    proof {
        assert(replace_from(s@, n as int, pat@, rep@) == Seq::<char>::empty());
        assert(out@ =~= replace_spec(s@, pat@, rep@));
    }
    out
}

/// The route path of a document entry: the `.md` suffix stripped, and
/// the root `index` document mapping to the empty route.
pub open spec fn document_tree_path_spec(p: Seq<char>, at_root: bool) -> Seq<char> {
    if ends_with(p, ".md"@) {
        let t = p.subrange(0, p.len() - 3);
        if t == "index"@ && at_root {
            Seq::empty()
        } else {
            t
        }
    } else {
        p
    }
}

/// Computes the route path of a document entry of the file tree.
pub fn document_tree_path(path_str: &str, at_root: bool) -> (r: String)
    ensures
        r@ == document_tree_path_spec(path_str@, at_root),
{
    let pv = str_chars(path_str);
    let md = str_chars(".md");
    let index_pat = str_chars("index");
    proof {
        reveal_strlit(".md");
        reveal_strlit("index");
    }
    if suffix_eq(&pv, &md) {
        let t = copy_range(&pv, 0, pv.len() - 3);
        if at_root && crate::paths::vec_eq(&t, &index_pat) {
            chars_string(&Vec::new())
        } else {
            chars_string(&t)
        }
    } else {
        proof {
            assert(pv@.subrange(0, pv@.len() as int) =~= pv@);
        }
        chars_string(&pv)
    }
}

/// The entry path of a plain file: its sanitized path under
/// `static/`, with raster extensions swapped to `.webp` when images
/// are converted.
pub open spec fn asset_tree_path_spec(p: Seq<char>, webp: bool) -> Seq<char> {
    let s = "static/"@ + crate::utils::sanitize_spec(p);
    let ext = crate::lazy_load::stem_and_ext(p).1;
    if webp && (ext == "jpg"@ || ext == "jpeg"@ || ext == "png"@) {
        replace_spec(
            replace_spec(replace_spec(s, ".jpg"@, ".webp"@), ".jpeg"@, ".webp"@),
            ".png"@,
            ".webp"@,
        )
    } else {
        s
    }
}

/// Computes the entry path of a plain file of the file tree.
pub fn asset_tree_path(path_str: &str, compress_to_webp: bool) -> (r: String)
    ensures
        r@ == asset_tree_path_spec(path_str@, compress_to_webp),
{
    proof {
        reveal_strlit("static/");
        reveal_strlit(".jpg");
        reveal_strlit(".jpeg");
        reveal_strlit(".png");
        reveal_strlit(".webp");
        reveal_strlit("jpg");
        reveal_strlit("jpeg");
        reveal_strlit("png");
    }
    let pv = str_chars(path_str);
    let mut out = str_chars("static/");
    crate::utils::push_sanitized(&mut out, &pv);
    let ext = crate::lazy_load::extension_of(&pv);
    let is_raster = {
        let jpg = str_chars("jpg");
        let jpeg = str_chars("jpeg");
        let png = str_chars("png");
        crate::paths::vec_eq(&ext, &jpg) || crate::paths::vec_eq(&ext, &jpeg)
            || crate::paths::vec_eq(&ext, &png)
    };
    if compress_to_webp && is_raster {
        let webp = str_chars(".webp");
        let out1 = replace_all(&out, &str_chars(".jpg"), &webp);
        let out2 = replace_all(&out1, &str_chars(".jpeg"), &webp);
        let out3 = replace_all(&out2, &str_chars(".png"), &webp);
        chars_string(&out3)
    } else {
        chars_string(&out)
    }
}

/// One frontmatter line's contribution to the title scan.
pub open spec fn title_scan(lines: Seq<Seq<char>>, i: int, in_fm: bool) -> Option<Seq<char>>
    decreases lines.len() - i when 0 <= i <= lines.len()
{
    if i >= lines.len() {
        None
    } else {
        let t = trim_spec(lines[i]);
        if t == "---"@ {
            if in_fm {
                None
            } else {
                title_scan(lines, i + 1, true)
            }
        } else if in_fm {
            match find_from(t, 0, ':') {
                Some(k) => if trim_spec(t.subrange(0, k)) == "title"@ {
                    Some(trim_spec(t.subrange(k + 1, t.len() as int)))
                } else {
                    title_scan(lines, i + 1, in_fm)
                },
                None => title_scan(lines, i + 1, in_fm),
            }
        } else {
            title_scan(lines, i + 1, in_fm)
        }
    }
}

/// The display name of a document entry: the trimmed `title` value of
/// its frontmatter block, or the given default when the block closes
/// first, no title line exists, or the title is empty.
pub open spec fn tree_document_name_spec(content: Seq<char>, default_name: Seq<char>) -> Seq<
    char,
> {
    match title_scan(crate::markdown::lines_spec(content), 0, false) {
        Some(t) => if t.len() > 0 {
            t
        } else {
            default_name
        },
        None => default_name,
    }
}

/// Reads the display name of a document entry off its raw text.
pub fn file_tree_document_name(content: &str, default_name: &str) -> (r: String)
    ensures
        r@ == tree_document_name_spec(content@, default_name@),
{
    proof {
        reveal_strlit("---");
        reveal_strlit("title");
    }
    let dashes = str_chars("---");
    let title_pat = str_chars("title");
    let cv = str_chars(content);
    let lines = crate::markdown::split_lines(&cv);
    let ghost lv = lines.deep_view();
    let n = lines.len();
    let mut in_fm = false;
    let mut i: usize = 0;
    proof {
        assert(lv.subrange(0, lv.len() as int) =~= lv);
    }
    while i < n
        invariant
            0 <= i <= n == lines@.len() == lv.len(),
            lv == crate::markdown::lines_spec(content@),
            lv == lines.deep_view(),
            dashes@ == "---"@,
            title_pat@ == "title"@,
            title_scan(lv, 0, false) == title_scan(lv, i as int, in_fm),
        decreases n - i,
    {
        proof {
            assert(lv[i as int] =~= lines@[i as int]@);
        }
        let t = crate::frontmatter::trim_vec_chars(&lines[i]);
        if crate::paths::vec_eq(&t, &dashes) {
            if in_fm {
                return default_name.to_owned();
            }
            in_fm = true;
        } else if in_fm {
            proof {
                lemma_find_from(t@, 0, ':');
            }
            match index_of_from(&t, 0, ':') {
                Some(k) => {
                    let key = crate::frontmatter::trim_vec_chars(&copy_range(&t, 0, k));
                    if crate::paths::vec_eq(&key, &title_pat) {
                        let value = crate::frontmatter::trim_vec_chars(
                            &copy_range(&t, k + 1, t.len()),
                        );
                        if value.len() > 0 {
                            return chars_string(&value);
                        } else {
                            return default_name.to_owned();
                        }
                    }
                },
                None => {},
            }
        }
        i += 1;
    }
    proof {
        assert(lv.subrange(lv.len() as int, lv.len() as int) =~= Seq::<Seq<char>>::empty());
        assert(title_scan(lv, lv.len() as int, in_fm) is None);
    }
    default_name.to_owned()
}

} // verus!
