//! The file index over the content tree and the canonical path
//! resolvers: asset paths under `/static/` and internal document paths.

use vstd::prelude::*;

use crate::text::{
    at, chars_string, copy_range, ends_with, find_from, index_of_from, match_at,
    prefix_eq, push_all, starts_with, str_chars, suffix_eq,
};
use crate::utils::{push_sanitized, sanitize_spec};

verus! {

/// Last position with `s[k] == c`, if any.
pub open spec fn find_last(s: Seq<char>, c: char) -> Option<int>
    decreases s.len(),
{
    if s.len() == 0 {
        None
    } else if s.last() == c {
        Some(s.len() - 1)
    } else {
        find_last(s.drop_last(), c)
    }
}

pub proof fn lemma_find_last(s: Seq<char>, c: char)
    ensures
        match find_last(s, c) {
            Some(k) => 0 <= k < s.len() && s[k] == c && forall|j: int|
                k < j < s.len() ==> s[j] != c,
            None => forall|j: int| 0 <= j < s.len() ==> s[j] != c,
        },
    decreases s.len(),
{
    if s.len() > 0 && s.last() != c {
        lemma_find_last(s.drop_last(), c);
        assert(forall|j: int| 0 <= j < s.len() - 1 ==> s.drop_last()[j] == s[j]);
        assert(find_last(s, c) == find_last(s.drop_last(), c));
    }
}

pub fn index_of_last(s: &Vec<char>, c: char) -> (r: Option<usize>)
    ensures
        match r {
            Some(k) => Some(k as int) == find_last(s@, c) && k < s@.len(),
            None => find_last(s@, c) is None,
        },
{
    let mut k: usize = s.len();
    proof {
        assert(s@.subrange(0, s@.len() as int) =~= s@);
    }
    while k > 0
        invariant
            0 <= k <= s@.len(),
            find_last(s@, c) == find_last(s@.subrange(0, k as int), c),
        decreases k,
    {
        if s[k - 1] == c {
            proof {
                assert(s@.subrange(0, k as int).last() == s@[k - 1]);
            }
            return Some(k - 1);
        }
        proof {
            assert(s@.subrange(0, k as int).drop_last() =~= s@.subrange(0, k - 1 as int));
        }
        k -= 1;
    }
    proof {
        assert(s@.subrange(0, 0) =~= Seq::<char>::empty());
    }
    None
}

/// The `/`-separated segments of `s`.
pub open spec fn split_slash_spec(s: Seq<char>) -> Seq<Seq<char>> {
    crate::text::split_sep_from(s, 0, '/')
}

pub fn split_slash(s: &Vec<char>) -> (r: Vec<Vec<char>>)
    ensures
        r.deep_view() == split_slash_spec(s@),
{
    crate::text::split_sep(s, '/')
}

/// Joins segments with `/`, skipping empty segments.
pub open spec fn join_slash(segs: Seq<Seq<char>>) -> Seq<char>
    decreases segs.len(),
{
    if segs.len() == 0 {
        Seq::empty()
    } else {
        let rest = join_slash(segs.drop_last());
        let s = segs.last();
        if s.len() == 0 {
            rest
        } else if rest.len() == 0 {
            s
        } else {
            rest + seq!['/'] + s
        }
    }
}

/// Appends one more segment to an already-joined prefix.
pub proof fn lemma_join_push(segs: Seq<Seq<char>>, s: Seq<char>)
    ensures
        join_slash(segs.push(s)) == if s.len() == 0 {
            join_slash(segs)
        } else if join_slash(segs).len() == 0 {
            s
        } else {
            join_slash(segs) + seq!['/'] + s
        },
{
    assert(segs.push(s).drop_last() =~= segs);
    assert(segs.push(s).last() == s);
}

/// Compares two character vectors for equality.
pub fn vec_eq(a: &Vec<char>, b: &Vec<char>) -> (r: bool)
    ensures
        r == (a@ == b@),
{
    if a.len() != b.len() {
        return false;
    }
    let r = match_at(a, 0, b);
    proof {
        if r {
            assert(a@.subrange(0, b@.len() as int) =~= a@);
        } else {
            assert(a@ != b@) by {
                if a@ == b@ {
                    assert(a@.subrange(0, b@.len() as int) =~= b@);
                }
            }
        }
    }
    r
}

/// Compares a `String` against a character vector.
pub fn string_eq_chars(a: &String, b: &Vec<char>) -> (r: bool)
    ensures
        r == (a@ == b@),
{
    let av = str_chars(a.as_str());
    vec_eq(&av, b)
}

/// The file name of a path: everything after the last `/`.
pub open spec fn base_name_spec(p: Seq<char>) -> Seq<char> {
    match find_last(p, '/') {
        Some(k) => p.subrange(k + 1, p.len() as int),
        None => p,
    }
}

/// The index pairs contributed by one file: its bare name, and for
/// documents also the file stem.
pub open spec fn entry_pairs(p: Seq<char>) -> Seq<(Seq<char>, Seq<char>)> {
    let base = base_name_spec(p);
    if ends_with(p, ".md"@) {
        seq![(base, p), (base.subrange(0, base.len() - 3), p)]
    } else {
        seq![(base, p)]
    }
}

/// The index pairs of a whole file listing, in walk order.
pub open spec fn index_pairs(files: Seq<Seq<char>>) -> Seq<(Seq<char>, Seq<char>)>
    decreases files.len(),
{
    if files.len() == 0 {
        Seq::empty()
    } else {
        index_pairs(files.drop_last()) + entry_pairs(files.last())
    }
}

/// The paths recorded under `name`, in insertion order.
pub open spec fn lookup_spec(pairs: Seq<(Seq<char>, Seq<char>)>, name: Seq<char>) -> Seq<Seq<char>>
    decreases pairs.len(),
{
    if pairs.len() == 0 {
        Seq::empty()
    } else {
        let rest = lookup_spec(pairs.drop_last(), name);
        if pairs.last().0 == name {
            rest.push(pairs.last().1)
        } else {
            rest
        }
    }
}

/// The file index: the recorded (name, path) pairs of one content-tree
/// walk, name lookups answered in insertion order.
pub struct FileIndex {
    pairs: Vec<(String, String)>,
}

impl View for FileIndex {
    type V = Seq<(Seq<char>, Seq<char>)>;

    closed spec fn view(&self) -> Seq<(Seq<char>, Seq<char>)> {
        self.pairs.deep_view()
    }
}

impl FileIndex {
    /// Builds the index from the file paths of one full tree walk, in
    /// walk order: every file is recorded under its bare name, and a
    /// document additionally under its stem.
    pub fn build(files: &Vec<String>) -> (r: FileIndex)
        ensures
            r@ == index_pairs(files.deep_view()),
    {
        let md = str_chars(".md");
        proof {
            reveal_strlit(".md");
        }
        let mut pairs: Vec<(String, String)> = Vec::new();
        let mut i: usize = 0;
        while i < files.len()
            invariant
                0 <= i <= files@.len(),
                md@ == ".md"@,
                pairs.deep_view() == index_pairs(files.deep_view().subrange(0, i as int)),
            decreases files@.len() - i,
        {
            let f = str_chars(files[i].as_str());
            let base = match index_of_last(&f, '/') {
                Some(k) => copy_range(&f, k + 1, f.len()),
                None => copy_range(&f, 0, f.len()),
            };
            proof {
                assert(f@.subrange(0, f@.len() as int) =~= f@);
                assert(base@ == base_name_spec(f@));
            }
            let ghost prev = pairs.deep_view();
            pairs.push((chars_string(&base), files[i].clone()));
            if suffix_eq(&f, &md) {
                proof {
                    reveal_strlit(".md");
                    assert(ends_with(f@, ".md"@));
                    assert(f@.subrange(f@.len() - 3, f@.len() as int) == ".md"@);
                    assert(f@[f@.len() - 3] == f@.subrange(f@.len() - 3, f@.len() as int)[0]);
                    assert(f@[f@.len() - 2] == f@.subrange(f@.len() - 3, f@.len() as int)[1]);
                    assert(f@[f@.len() - 1] == f@.subrange(f@.len() - 3, f@.len() as int)[2]);
                    assert(f@[f@.len() - 3] == '.' && f@[f@.len() - 2] == 'm' && f@[f@.len() - 1]
                        == 'd');
                    assert(base@.len() >= 3) by {
                        lemma_find_last(f@, '/');
                    }
                }
                let stem = copy_range(&base, 0, base.len() - 3);
                pairs.push((chars_string(&stem), files[i].clone()));
            }
            proof {
                assert(pairs.deep_view() =~~= prev + entry_pairs(f@));
                assert(files.deep_view().subrange(0, (i + 1) as int).drop_last() =~= files.deep_view().subrange(0, i as int));
                assert(files.deep_view().subrange(0, (i + 1) as int).last() == f@);
                assert(pairs.deep_view() =~~= index_pairs(files.deep_view().subrange(0, (i + 1) as int)));
            }
            i += 1;
        }
        proof {
            assert(files.deep_view().subrange(0, files@.len() as int) =~= files.deep_view());
        }
        FileIndex { pairs }
    }

    /// All paths recorded under `name`, in insertion order; empty when
    /// the name was never recorded.
    pub fn lookup(&self, name: &str) -> (r: Vec<String>)
        ensures
            r.deep_view() == lookup_spec(self@, name@),
    {
        let nv = str_chars(name);
        let mut r: Vec<String> = Vec::new();
        let mut i: usize = 0;
        while i < self.pairs.len()
            invariant
                0 <= i <= self.pairs@.len(),
                nv@ == name@,
                self@ == self.pairs.deep_view(),
                r.deep_view() == lookup_spec(self@.subrange(0, i as int), name@),
            decreases self.pairs@.len() - i,
        {
            let ghost prev = r.deep_view();
            if string_eq_chars(&self.pairs[i].0, &nv) {
                r.push(self.pairs[i].1.clone());
            }
            proof {
                assert(self@.subrange(0, (i + 1) as int).drop_last() =~= self@.subrange(0, i as int));
                assert(self@.subrange(0, (i + 1) as int).last() == self@[i as int]);
                if self.pairs@[i as int].0@ == name@ {
                    assert(r.deep_view() =~~= prev.push(self.pairs@[i as int].1@));
                }
                assert(r.deep_view() =~~= lookup_spec(self@.subrange(0, (i + 1) as int), name@));
            }
            i += 1;
        }
        proof {
            assert(self@.subrange(0, self.pairs@.len() as int) =~= self@);
        }
        r
    }
}

/// `s` with a trailing `.md` removed, if present.
pub open spec fn strip_md_spec(s: Seq<char>) -> Seq<char> {
    if ends_with(s, ".md"@) {
        s.subrange(0, s.len() - 3)
    } else {
        s
    }
}

/// The canonical document path of a reference: the `.md` suffix is
/// stripped, `index` maps to the site root, and everything else gains a
/// leading slash.
#[verifier::opaque]
pub open spec fn internal_link_spec(s: Seq<char>) -> Seq<char> {
    let clean = strip_md_spec(s);
    if clean == "index"@ {
        "/"@
    } else {
        "/"@ + clean
    }
}

/// Resolves a reference to its canonical internal document path.
pub fn get_internal_link_path(path: &str) -> (r: String)
    ensures
        r@ == internal_link_spec(path@),
{
    let p = str_chars(path);
    let out = internal_link_vec(&p);
    chars_string(&out)
}

fn internal_link_vec(p: &Vec<char>) -> (r: Vec<char>)
    ensures
        r@ == internal_link_spec(p@),
{
    let md = str_chars(".md");
    let index_pat = str_chars("index");
    proof {
        reveal_strlit(".md");
        reveal_strlit("index");
        reveal_strlit("/");
    }
    proof {
        reveal(internal_link_spec);
    }
    let clean = if suffix_eq(p, &md) {
        copy_range(p, 0, p.len() - 3)
    } else {
        copy_range(p, 0, p.len())
    };
    proof {
        assert(p@.subrange(0, p@.len() as int) =~= p@);
        assert(clean@ == strip_md_spec(p@));
    }
    let mut out: Vec<char> = Vec::new();
    out.push('/');
    proof {
        assert(out@ =~= "/"@);
    }
    if vec_eq(&clean, &index_pat) {
        out
    } else {
        push_all(&mut out, &clean);
        out
    }
}

/// The parent directory of a path: everything before the last `/`, or
/// empty when there is none.
pub open spec fn parent_spec(cur: Seq<char>) -> Seq<char> {
    match find_last(cur, '/') {
        Some(k) => cur.subrange(0, k),
        None => Seq::empty(),
    }
}

/// Strips the content root from a directory path; a path outside the
/// content root resolves to the root itself.
pub open spec fn content_rel_dir(s: Seq<char>) -> Seq<char> {
    if s == "content"@ {
        Seq::empty()
    } else if starts_with(s, "content/"@) {
        s.subrange(8, s.len() as int)
    } else {
        Seq::empty()
    }
}

/// Strips the content root from a file path; a path outside the content
/// root stands unchanged.
pub open spec fn strip_content(s: Seq<char>) -> Seq<char> {
    if s == "content"@ {
        Seq::empty()
    } else if starts_with(s, "content/"@) {
        s.subrange(8, s.len() as int)
    } else {
        s
    }
}

fn strip_content_vec(s: &Vec<char>) -> (r: Vec<char>)
    ensures
        r@ == strip_content(s@),
{
    let content = str_chars("content");
    let content_slash = str_chars("content/");
    proof {
        reveal_strlit("content");
        reveal_strlit("content/");
    }
    if vec_eq(s, &content) {
        Vec::new()
    } else if prefix_eq(s, &content_slash) {
        copy_range(s, 8, s.len())
    } else {
        proof {
            assert(s@.subrange(0, s@.len() as int) =~= s@);
        }
        copy_range(s, 0, s.len())
    }
}

/// Relative resolution: each leading `.` segment is dropped, each
/// leading `..` segment ascends one directory (a no-op at the content
/// root), and the remaining segments stand as they are.
pub open spec fn rel_segments(dirsegs: Seq<Seq<char>>, segs: Seq<Seq<char>>) -> Seq<Seq<char>>
    decreases segs.len(),
{
    if segs.len() == 0 {
        dirsegs
    } else if segs[0] == "."@ {
        rel_segments(dirsegs, segs.drop_first())
    } else if segs[0] == ".."@ {
        rel_segments(
            if dirsegs.len() > 0 {
                dirsegs.drop_last()
            } else {
                dirsegs
            },
            segs.drop_first(),
        )
    } else {
        dirsegs + segs
    }
}

/// The directory, as segments, that relative references resolve
/// against.
pub open spec fn dir_segs(dir: Seq<char>) -> Seq<Seq<char>> {
    if dir.len() == 0 {
        Seq::empty()
    } else {
        split_slash_spec(dir)
    }
}

/// The canonical asset path of a reference: a reference starting with
/// `./` or `../` is resolved against the referencing document's
/// directory; any other reference stands as it is; the result is
/// sanitized and placed under `/static/`.
#[verifier::opaque]
pub open spec fn resolve_path_spec(p: Seq<char>, cur: Seq<char>) -> Seq<char> {
    let dir = content_rel_dir(parent_spec(cur));
    let rel = if starts_with(p, "./"@) || starts_with(p, "../"@) {
        join_slash(rel_segments(dir_segs(dir), split_slash_spec(p)))
    } else {
        p
    };
    "/static/"@ + sanitize_spec(rel)
}

/// Resolves a relative asset reference against the referencing
/// document's path into a sanitized `/static/` path.
pub fn resolve_path(path: &str, current_path: &str) -> (r: String)
    ensures
        r@ == resolve_path_spec(path@, current_path@),
{
    let p = str_chars(path);
    let cur = str_chars(current_path);
    let out = resolve_path_vec(&p, &cur);
    chars_string(&out)
}

pub(crate) fn resolve_path_vec(p: &Vec<char>, cur: &Vec<char>) -> (r: Vec<char>)
    ensures
        r@ == resolve_path_spec(p@, cur@),
{
    proof {
        reveal(resolve_path_spec);
    }
    let dot_slash = str_chars("./");
    let dotdot_slash = str_chars("../");
    let dot = str_chars(".");
    let dotdot = str_chars("..");
    let content = str_chars("content");
    let content_slash = str_chars("content/");
    proof {
        reveal_strlit("./");
        reveal_strlit("../");
        reveal_strlit(".");
        reveal_strlit("..");
        reveal_strlit("content");
        reveal_strlit("content/");
        reveal_strlit("/static/");
    }
    let parent = match index_of_last(cur, '/') {
        Some(k) => copy_range(cur, 0, k),
        None => Vec::new(),
    };
    proof {
        assert(parent@ == parent_spec(cur@));
    }
    let dir = if vec_eq(&parent, &content) {
        Vec::new()
    } else if prefix_eq(&parent, &content_slash) {
        copy_range(&parent, 8, parent.len())
    } else {
        Vec::new()
    };
    proof {
        assert(dir@ == content_rel_dir(parent_spec(cur@)));
    }
    let rel: Vec<char> = if prefix_eq(p, &dot_slash) || prefix_eq(p, &dotdot_slash) {
        let mut dv: Vec<Vec<char>> = if dir.len() > 0 {
            split_slash(&dir)
        } else {
            Vec::new()
        };
        let ghost dv0 = dv.deep_view();
        let psegs = split_slash(p);
        proof {
            assert(dv0 == dir_segs(dir@));
        }
        let mut i: usize = 0;
        proof {
            assert(psegs.deep_view().subrange(0, psegs@.len() as int) =~= psegs.deep_view());
        }
        loop
            invariant
                0 <= i <= psegs@.len(),
                psegs.deep_view() == split_slash_spec(p@),
                dot@ == "."@,
                dotdot@ == ".."@,
                rel_segments(dir_segs(dir@), psegs.deep_view()) == rel_segments(
                    dv.deep_view(),
                    psegs.deep_view().subrange(i as int, psegs@.len() as int),
                ),
            ensures
                i <= psegs@.len(),
                i < psegs@.len() ==> psegs.deep_view()[i as int] != "."@
                    && psegs.deep_view()[i as int] != ".."@,
            decreases psegs@.len() - i,
        {
            if i >= psegs.len() {
                break;
            }
            let ghost suffix = psegs.deep_view().subrange(i as int, psegs@.len() as int);
            proof {
                assert(psegs.deep_view()[i as int] =~= psegs@[i as int]@);
                assert(suffix[0] == psegs.deep_view()[i as int]);
                assert(suffix.drop_first() =~= psegs.deep_view().subrange(
                    (i + 1) as int,
                    psegs@.len() as int,
                ));
            }
            if vec_eq(&psegs[i], &dot) {
                i += 1;
            } else if vec_eq(&psegs[i], &dotdot) {
                let ghost dvv = dv.deep_view();
                if dv.len() > 0 {
                    dv.pop();
                    proof {
                        assert(dv.deep_view() =~~= dvv.drop_last());
                    }
                }
                i += 1;
            } else {
                break;
            }
        }
        // Join the directory segments and the remaining reference
        // segments, skipping empty segments.
        let ghost tail = psegs.deep_view().subrange(i as int, psegs@.len() as int);
        let ghost all = dv.deep_view() + tail;
        proof {
            if i < psegs@.len() {
                assert(rel_segments(dv.deep_view(), tail) == dv.deep_view() + tail);
            } else {
                assert(tail =~= Seq::<Seq<char>>::empty());
                assert(rel_segments(dv.deep_view(), tail) == dv.deep_view());
                assert(all =~= dv.deep_view());
            }
            assert(rel_segments(dir_segs(dir@), split_slash_spec(p@)) == all);
        }
        let mut joined: Vec<char> = Vec::new();
        let mut j: usize = 0;
        while j < dv.len()
            invariant
                0 <= j <= dv@.len(),
                joined@ == join_slash(dv.deep_view().subrange(0, j as int)),
            decreases dv@.len() - j,
        {
            proof {
                lemma_join_push(dv.deep_view().subrange(0, j as int), dv.deep_view()[j as int]);
                assert(dv.deep_view().subrange(0, (j + 1) as int) =~= dv.deep_view().subrange(
                    0,
                    j as int,
                ).push(dv.deep_view()[j as int]));
            }
            if dv[j].len() > 0 {
                if joined.len() > 0 {
                    joined.push('/');
                }
                push_all(&mut joined, &dv[j]);
                proof {
                    assert(joined@ =~= join_slash(dv.deep_view().subrange(0, (j + 1) as int)));
                }
            }
            j += 1;
        }
        proof {
            assert(dv.deep_view().subrange(0, dv@.len() as int) =~= dv.deep_view());
        }
        let mut m: usize = i;
        while m < psegs.len()
            invariant
                i <= m <= psegs@.len(),
                tail == psegs.deep_view().subrange(i as int, psegs@.len() as int),
                joined@ == join_slash(
                    dv.deep_view() + psegs.deep_view().subrange(i as int, m as int),
                ),
            decreases psegs@.len() - m,
        {
            proof {
                lemma_join_push(
                    dv.deep_view() + psegs.deep_view().subrange(i as int, m as int),
                    psegs.deep_view()[m as int],
                );
                assert(dv.deep_view() + psegs.deep_view().subrange(i as int, (m + 1) as int)
                    =~= (dv.deep_view() + psegs.deep_view().subrange(i as int, m as int)).push(
                    psegs.deep_view()[m as int],
                ));
            }
            if psegs[m].len() > 0 {
                if joined.len() > 0 {
                    joined.push('/');
                }
                push_all(&mut joined, &psegs[m]);
                proof {
                    assert(joined@ =~= join_slash(
                        dv.deep_view() + psegs.deep_view().subrange(i as int, (m + 1) as int),
                    ));
                }
            }
            m += 1;
        }
        proof {
            assert(joined@ == join_slash(all));
        }
        joined
    } else {
        proof {
            assert(p@.subrange(0, p@.len() as int) =~= p@);
        }
        copy_range(p, 0, p.len())
    };
    let mut out = str_chars("/static/");
    push_sanitized(&mut out, &rel);
    out
}

/// The canonical asset path for an embed-style image reference,
/// resolved through the file index.
#[verifier::opaque]
pub open spec fn find_unique_image_spec(
    name: Seq<char>,
    cur: Seq<char>,
    idx: Seq<(Seq<char>, Seq<char>)>,
) -> Seq<char> {
    if find_from(name, 0, '/') is Some {
        resolve_path_spec(name, cur)
    } else {
        let ms = lookup_spec(idx, name);
        if ms.len() == 0 {
            resolve_path_spec(name, cur)
        } else {
            "/static/"@ + sanitize_spec(strip_content(ms[0]))
        }
    }
}

/// Resolves a bare image name through the file index: a name with a
/// path separator, or one the index does not know, falls back to
/// path-relative resolution; otherwise the first recorded match wins.
pub fn find_unique_image(image_name: &str, current_path: &str, index: &FileIndex) -> (r: String)
    ensures
        r@ == find_unique_image_spec(image_name@, current_path@, index@),
{
    proof {
        reveal(find_unique_image_spec);
    }
    let nv = str_chars(image_name);
    let cur = str_chars(current_path);
    if index_of_from(&nv, 0, '/').is_some() {
        let out = resolve_path_vec(&nv, &cur);
        return chars_string(&out);
    }
    let ms = index.lookup(image_name);
    if ms.len() == 0 {
        let out = resolve_path_vec(&nv, &cur);
        chars_string(&out)
    } else {
        let mv = str_chars(ms[0].as_str());
        proof {
            assert(mv@ =~= lookup_spec(index@, image_name@)[0]);
            reveal_strlit("/static/");
        }
        let stripped = strip_content_vec(&mv);
        let mut out = str_chars("/static/");
        push_sanitized(&mut out, &stripped);
        chars_string(&out)
    }
}

/// The first document match in a lookup result.
pub open spec fn first_md(ms: Seq<Seq<char>>) -> Option<Seq<char>>
    decreases ms.len(),
{
    if ms.len() == 0 {
        None
    } else if ends_with(ms[0], ".md"@) {
        Some(ms[0])
    } else {
        first_md(ms.drop_first())
    }
}

/// The canonical document path for a bare internal link reference,
/// resolved through the file index: the first document match wins, and
/// a name without one resolves by the document path rule alone.
#[verifier::opaque]
pub open spec fn find_unique_internal_link_spec(
    name: Seq<char>,
    idx: Seq<(Seq<char>, Seq<char>)>,
) -> Seq<char> {
    match first_md(lookup_spec(idx, name)) {
        Some(m) => internal_link_spec(strip_content(m)),
        None => internal_link_spec(name),
    }
}

/// Resolves a bare internal link name through the file index.
pub fn find_unique_internal_link(link_name: &str, index: &FileIndex) -> (r: String)
    ensures
        r@ == find_unique_internal_link_spec(link_name@, index@),
{
    let md = str_chars(".md");
    proof {
        reveal_strlit(".md");
        reveal(find_unique_internal_link_spec);
    }
    let ms = index.lookup(link_name);
    let ghost msv = lookup_spec(index@, link_name@);
    let mut i: usize = 0;
    proof {
        assert(msv.subrange(0, msv.len() as int) =~= msv);
    }
    while i < ms.len()
        invariant
            0 <= i <= ms@.len(),
            md@ == ".md"@,
            ms.deep_view() == msv,
            msv == lookup_spec(index@, link_name@),
            first_md(msv) == first_md(msv.subrange(i as int, msv.len() as int)),
        decreases ms@.len() - i,
    {
        let ghost suffix = msv.subrange(i as int, msv.len() as int);
        let mv = str_chars(ms[i].as_str());
        proof {
            reveal(find_unique_internal_link_spec);
            assert(mv@ =~= msv[i as int]);
            assert(suffix[0] == msv[i as int]);
            assert(suffix.drop_first() =~= msv.subrange((i + 1) as int, msv.len() as int));
        }
        if suffix_eq(&mv, &md) {
            proof {
                assert(first_md(msv) == Some(mv@));
            }
            let stripped = strip_content_vec(&mv);
            let out = internal_link_vec(&stripped);
            return chars_string(&out);
        }
        i += 1;
    }
    proof {
        reveal(find_unique_internal_link_spec);
        assert(msv.subrange(msv.len() as int, msv.len() as int) =~= Seq::<Seq<char>>::empty());
        assert(first_md(msv) is None);
    }
    let nv = str_chars(link_name);
    let out = internal_link_vec(&nv);
    chars_string(&out)
}

/// A reference that matches zero file-index entries resolves exactly
/// as the path-relative asset fallback does: nothing is dropped.
pub proof fn lemma_unresolved_image_falls_back(
    name: Seq<char>,
    cur: Seq<char>,
    idx: Seq<(Seq<char>, Seq<char>)>,
)
    requires
        lookup_spec(idx, name).len() == 0,
    ensures
        find_unique_image_spec(name, cur, idx) == resolve_path_spec(name, cur),
{
    reveal(find_unique_image_spec);
}

/// A link reference that matches zero file-index entries resolves
/// exactly as the document-path rule applied to the reference itself.
pub proof fn lemma_unresolved_link_falls_back(name: Seq<char>, idx: Seq<(Seq<char>, Seq<char>)>)
    requires
        lookup_spec(idx, name).len() == 0,
    ensures
        find_unique_internal_link_spec(name, idx) == internal_link_spec(name),
{
    reveal(find_unique_internal_link_spec);
    assert(first_md(lookup_spec(idx, name)) is None);
}

} // verus!
