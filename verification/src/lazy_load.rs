//! Lazy-loading rewriting: every image tag of a rendered body is
//! wrapped in a container that loads a blurred placeholder first and
//! swaps in the real image when it scrolls into view.

use vstd::prelude::*;

use crate::frontmatter::is_unicode_space;
use crate::paths::{base_name_spec, find_last, index_of_last};
use crate::text::{at, chars_string, copy_range, find_from, index_of_from, lemma_find_from,
    match_at, push_all, push_range, str_chars};

verus! {

/// First position `k >= i` holding something other than whitespace,
/// if any.
pub open spec fn find_nonspace(s: Seq<char>, i: int) -> Option<int>
    decreases s.len() - i when 0 <= i <= s.len()
{
    if i >= s.len() {
        None
    } else if !is_unicode_space(s[i]) {
        Some(i)
    } else {
        find_nonspace(s, i + 1)
    }
}

pub proof fn lemma_find_nonspace(s: Seq<char>, i: int)
    requires
        0 <= i <= s.len(),
    ensures
        match find_nonspace(s, i) {
            Some(k) => i <= k < s.len(),
            None => true,
        },
    decreases s.len() - i,
{
    if i < s.len() && is_unicode_space(s[i]) {
        lemma_find_nonspace(s, i + 1);
    }
}

fn index_of_nonspace(s: &Vec<char>, i: usize) -> (r: Option<usize>)
    requires
        i <= s@.len(),
    ensures
        match r {
            Some(k) => find_nonspace(s@, i as int) == Some(k as int) && i <= k < s@.len(),
            None => find_nonspace(s@, i as int) is None,
        },
{
    let mut k: usize = i;
    while k < s.len()
        invariant
            i <= k <= s@.len(),
            find_nonspace(s@, i as int) == find_nonspace(s@, k as int),
        decreases s@.len() - k,
    {
        if !crate::frontmatter::char_is_space(s[k]) {
            return Some(k);
        }
        k += 1;
    }
    None
}

/// No `>` stands in `s[p..q)`.
pub open spec fn no_gt(s: Seq<char>, p: int, q: int) -> bool {
    forall|j: int| p <= j < q ==> s[j] != '>'
}

/// The greedy search for the `src` attribute of an image tag: the
/// last `src="` reachable from `p` without crossing a `>`, whose value
/// is non-empty and closed, and followed eventually by a `>`.
pub open spec fn src_search(s: Seq<char>, p: int, q: int) -> Option<(int, int, int)>
    decreases q - p + 1 when p >= 0 && q + 5 <= s.len()
{
    if q < p {
        None
    } else if at(s, q, "src=\""@) && no_gt(s, p, q) {
        match find_from(s, q + 5, '"') {
            Some(vend) => if vend > q + 5 {
                match find_from(s, vend + 1, '>') {
                    Some(g2) => Some((q, vend, g2)),
                    None => src_search(s, p, q - 1),
                }
            } else {
                src_search(s, p, q - 1)
            },
            None => src_search(s, p, q - 1),
        }
    } else {
        src_search(s, p, q - 1)
    }
}

pub proof fn lemma_src_search(s: Seq<char>, p: int, q: int)
    requires
        p >= 0,
        q + 5 <= s.len(),
    ensures
        match src_search(s, p, q) {
            Some(m) => p <= m.0 <= q && m.0 + 5 < m.1 < m.2 < s.len() && s[m.2] == '>' && no_gt(
                s,
                p,
                m.0,
            ),
            None => true,
        },
    decreases q - p + 1,
{
    if q >= p {
        if at(s, q, "src=\""@) && no_gt(s, p, q) {
            reveal_strlit("src=\"");
            lemma_find_from(s, q + 5, '"');
            match find_from(s, q + 5, '"') {
                Some(vend) => {
                    if vend > q + 5 {
                        lemma_find_from(s, vend + 1, '>');
                    }
                },
                None => {},
            }
        }
        lemma_src_search(s, p, q - 1);
    }
}

fn src_search_exec(s: &Vec<char>, p: usize, q0: usize) -> (r: Option<(usize, usize, usize)>)
    requires
        q0 + 5 <= s@.len(),
    ensures
        match r {
            Some(m) => src_search(s@, p as int, q0 as int) == Some(
                (m.0 as int, m.1 as int, m.2 as int),
            ) && p <= m.0 <= q0 && m.0 + 5 < m.1 < m.2 < s@.len(),
            None => src_search(s@, p as int, q0 as int) is None,
        },
{
    let pat = str_chars("src=\"");
    let n = s.len();
    proof {
        reveal_strlit("src=\"");
        lemma_src_search(s@, p as int, q0 as int);
    }
    let mut q: usize = q0;
    loop
        invariant
            q <= q0,
            q0 + 5 <= n == s@.len(),
            pat@ == "src=\""@,
            src_search(s@, p as int, q0 as int) == src_search(s@, p as int, q as int),
        decreases q + 1,
    {
        proof {
            lemma_src_search(s@, p as int, q as int);
        }
        if q < p {
            return None;
        }
        if match_at(s, q, &pat) && no_gt_exec(s, p, q) {
            proof {
                assert(q + 5 <= s@.len());
                lemma_find_from(s@, (q + 5) as int, '"');
            }
            let v5 = q + 5;
            match index_of_from(s, v5, '"') {
                Some(vend) => {
                    if vend > v5 {
                        proof {
                            lemma_find_from(s@, (vend + 1) as int, '>');
                        }
                        match index_of_from(s, vend + 1, '>') {
                            Some(g2) => {
                                return Some((q, vend, g2));
                            },
                            None => {},
                        }
                    }
                },
                None => {},
            }
        }
        if q == 0 {
            proof {
                assert(src_search(s@, p as int, -1) is None);
            }
            return None;
        }
        q -= 1;
    }
}

fn no_gt_exec(s: &Vec<char>, p: usize, q: usize) -> (r: bool)
    requires
        q <= s@.len(),
    ensures
        r == no_gt(s@, p as int, q as int),
{
    let mut j: usize = p;
    if p >= q {
        return true;
    }
    while j < q
        invariant
            p <= j <= q <= s@.len(),
            forall|k: int| p <= k < j ==> s@[k] != '>',
        decreases q - j,
    {
        if s[j] == '>' {
            return false;
        }
        j += 1;
    }
    true
}

/// A source path with its trailing slashes removed, as `Path`
/// normalizes them away.
pub open spec fn drop_trailing_slashes(s: Seq<char>) -> Seq<char>
    decreases s.len(),
{
    if s.len() > 0 && s.last() == '/' {
        drop_trailing_slashes(s.drop_last())
    } else {
        s
    }
}

/// The file stem and extension of a source path: the name after the
/// last slash, split at its last dot when that dot is not the leading
/// character.
pub open spec fn stem_and_ext(src: Seq<char>) -> (Seq<char>, Seq<char>) {
    let base = base_name_spec(drop_trailing_slashes(src));
    match find_last(base, '.') {
        Some(k) => if k > 0 {
            (base.subrange(0, k), base.subrange(k + 1, base.len() as int))
        } else {
            (base, Seq::empty())
        },
        None => (base, Seq::empty()),
    }
}

/// The placeholder path of an image: its stem under `/static/lazy/`,
/// with its own extension or `webp` when images are converted.
pub open spec fn placeholder_path(src: Seq<char>, webp: bool) -> Seq<char> {
    let se = stem_and_ext(src);
    if webp {
        "/static/lazy/"@ + se.0 + ".webp"@
    } else {
        "/static/lazy/"@ + se.0 + seq!['.'] + se.1
    }
}

/// One rewritten image tag: the lazy container holding the real image
/// with a deferred source and the placeholder beside it.
pub open spec fn lazy_replacement(
    before: Seq<char>,
    src: Seq<char>,
    after: Seq<char>,
    webp: bool,
) -> Seq<char> {
    let ph = placeholder_path(src, webp);
    "<div class=\"lazy-image-container\">\n                    <img "@ + before + "src=\""@ + ph
        + "\" data-src=\""@ + src + "\" loading=\"lazy\" "@ + after
        + "><img class=\"placeholder\" src=\""@ + ph
        + "\" alt=\"loading...\">\n                </div>"@
}

/// The image-tag match at position `i`: the start of the attribute
/// run, and the `src` attribute's position, value end and closing
/// `>`.
pub open spec fn img_match(s: Seq<char>, i: int) -> Option<(int, int, int, int)> {
    if at(s, i, "<img"@) && i + 4 < s.len() && is_unicode_space(s[i + 4]) && s.len() >= 5 {
        match find_nonspace(s, i + 5) {
            None => None,
            Some(p) => match src_search(s, p, s.len() - 5) {
                Some(m) => Some((p, m.0, m.1, m.2)),
                None => None,
            },
        }
    } else {
        None
    }
}

/// The lazy-loading pass from position `i` on.
pub open spec fn rewrite_lazy_from(s: Seq<char>, i: int, webp: bool) -> Seq<char>
    decreases s.len() - i when 0 <= i <= s.len() via rewrite_lazy_from_decreases
{
    if i >= s.len() {
        Seq::empty()
    } else {
        match img_match(s, i) {
            Some(m) => lazy_replacement(
                s.subrange(m.0, m.1),
                s.subrange(m.1 + 5, m.2),
                s.subrange(m.2 + 1, m.3),
                webp,
            ) + rewrite_lazy_from(s, m.3 + 1, webp),
            None => seq![s[i]] + rewrite_lazy_from(s, i + 1, webp),
        }
    }
}

#[via_fn]
proof fn rewrite_lazy_from_decreases(s: Seq<char>, i: int, webp: bool) {
    reveal_strlit("<img");
    match img_match(s, i) {
        Some(m) => {
            lemma_find_nonspace(s, i + 5);
            match find_nonspace(s, i + 5) {
                Some(p) => {
                    lemma_src_search(s, p, s.len() - 5);
                },
                None => {},
            }
        },
        None => {},
    }
}

/// The whole lazy-loading pass.
pub open spec fn lazy_spec(s: Seq<char>, webp: bool) -> Seq<char> {
    rewrite_lazy_from(s, 0, webp)
}

/// Splits a source path into its file stem and extension.
pub(crate) fn stem_ext_exec(src: &Vec<char>) -> (r: (Vec<char>, Vec<char>))
    ensures
        r.0@ == stem_and_ext(src@).0,
        r.1@ == stem_and_ext(src@).1,
{
    let mut b: usize = src.len();
    proof {
        assert(src@.subrange(0, src@.len() as int) =~= src@);
    }
    while b > 0 && src[b - 1] == '/'
        invariant
            0 <= b <= src@.len(),
            drop_trailing_slashes(src@) == drop_trailing_slashes(src@.subrange(0, b as int)),
        decreases b,
    {
        proof {
            assert(src@.subrange(0, b as int).drop_last() =~= src@.subrange(0, (b - 1) as int));
        }
        b -= 1;
    }
    let trimmed = copy_range(src, 0, b);
    proof {
        if b > 0 {
            assert(drop_trailing_slashes(src@) =~= trimmed@);
        } else {
            assert(trimmed@ =~= Seq::<char>::empty());
            assert(drop_trailing_slashes(src@) =~= trimmed@);
        }
        assert(src@.subrange(0, src@.len() as int) =~= src@);
    }
    let base = match index_of_last(&trimmed, '/') {
        Some(k) => copy_range(&trimmed, k + 1, trimmed.len()),
        None => {
            proof {
                assert(trimmed@.subrange(0, trimmed@.len() as int) =~= trimmed@);
            }
            copy_range(&trimmed, 0, trimmed.len())
        },
    };
    proof {
        assert(base@ == base_name_spec(drop_trailing_slashes(src@)));
    }
    match index_of_last(&base, '.') {
        Some(k) => {
            if k > 0 {
                (copy_range(&base, 0, k), copy_range(&base, k + 1, base.len()))
            } else {
                proof {
                    assert(base@.subrange(0, base@.len() as int) =~= base@);
                }
                (copy_range(&base, 0, base.len()), Vec::new())
            }
        },
        None => {
            proof {
                assert(base@.subrange(0, base@.len() as int) =~= base@);
            }
            (copy_range(&base, 0, base.len()), Vec::new())
        },
    }
}

/// The extension of a source path, as [`stem_and_ext`] splits it.
pub(crate) fn extension_of(src: &Vec<char>) -> (r: Vec<char>)
    ensures
        r@ == stem_and_ext(src@).1,
{
    let se = stem_ext_exec(src);
    se.1
}

fn placeholder_exec(src: &Vec<char>, webp: bool) -> (r: Vec<char>)
    ensures
        r@ == placeholder_path(src@, webp),
{
    proof {
        reveal_strlit("/static/lazy/");
        reveal_strlit(".webp");
    }
    let se = stem_ext_exec(src);
    let mut out = str_chars("/static/lazy/");
    push_all(&mut out, &se.0);
    if webp {
        let ext = str_chars(".webp");
        push_all(&mut out, &ext);
    } else {
        out.push('.');
        push_all(&mut out, &se.1);
    }
    proof {
        assert(out@ =~= placeholder_path(src@, webp));
    }
    out
}


#[verifier::rlimit(60)]
fn push_lazy_replacement(
    out: &mut Vec<char>,
    s: &Vec<char>,
    p: usize,
    q: usize,
    vend: usize,
    g2: usize,
    webp: bool,
)
    requires
        p <= q,
        q + 5 < vend < g2 < s@.len(),
    ensures
        final(out)@ == old(out)@ + lazy_replacement(
            s@.subrange(p as int, q as int),
            s@.subrange(q + 5, vend as int),
            s@.subrange(vend + 1, g2 as int),
            webp,
        ),
{
    proof {
        reveal_strlit("<div class=\"lazy-image-container\">\n                    <img ");
        reveal_strlit("src=\"");
        reveal_strlit("\" data-src=\"");
        reveal_strlit("\" loading=\"lazy\" ");
        reveal_strlit("><img class=\"placeholder\" src=\"");
        reveal_strlit("\" alt=\"loading...\">\n                </div>");
    }
    let head = str_chars("<div class=\"lazy-image-container\">\n                    <img ");
    let srcq = str_chars("src=\"");
    let data_src = str_chars("\" data-src=\"");
    let loading = str_chars("\" loading=\"lazy\" ");
    let mid = str_chars("><img class=\"placeholder\" src=\"");
    let tail = str_chars("\" alt=\"loading...\">\n                </div>");
    let src = copy_range(s, q + 5, vend);
    let ph = placeholder_exec(&src, webp);
    push_all(out, &head);
    push_range(out, s, p, q);
    push_all(out, &srcq);
    push_all(out, &ph);
    push_all(out, &data_src);
    push_all(out, &src);
    push_all(out, &loading);
    push_range(out, s, vend + 1, g2);
    push_all(out, &mid);
    push_all(out, &ph);
    push_all(out, &tail);
    proof {
        assert(out@ =~= old(out)@ + lazy_replacement(
            s@.subrange(p as int, q as int),
            s@.subrange(q + 5, vend as int),
            s@.subrange(vend + 1, g2 as int),
            webp,
        ));
    }
}

/// Wraps every `<img ... src="...">` tag of a rendered body in a
/// lazy-loading container: the real source moves to `data-src`, and a
/// placeholder under `/static/lazy/` shows until it loads.
#[verifier::rlimit(100)]
pub fn add_lazy_loading(html: &str, compress_to_webp: bool) -> (r: String)
    ensures
        r@ == lazy_spec(html@, compress_to_webp),
{
    let s = str_chars(html);
    let img_pat = str_chars("<img");
    proof {
        reveal_strlit("<img");
    }
    let n = s.len();
    let mut out: Vec<char> = Vec::new();
    let mut i: usize = 0;
    while i < n
        invariant
            0 <= i <= n == s@.len(),
            img_pat@ == "<img"@,
            out@ + rewrite_lazy_from(s@, i as int, compress_to_webp) == lazy_spec(
                s@,
                compress_to_webp,
            ),
        decreases n - i,
    {
        let mut plain = true;
        if match_at(&s, i, &img_pat) && n - i > 4 && crate::frontmatter::char_is_space(s[i + 4])
            && n >= 5 {
            match index_of_nonspace(&s, i + 5) {
                Some(p) => {
                    match src_search_exec(&s, p, n - 5) {
                        Some((q, vend, g2)) => {
                            plain = false;
                            proof {
                                assert(img_match(s@, i as int) == Some(
                                    (p as int, q as int, vend as int, g2 as int),
                                ));
                            }
                            push_lazy_replacement(&mut out, &s, p, q, vend, g2, compress_to_webp);
                            proof {
                                assert(rewrite_lazy_from(s@, i as int, compress_to_webp)
                                    == lazy_replacement(
                                    s@.subrange(p as int, q as int),
                                    s@.subrange(q + 5, vend as int),
                                    s@.subrange(vend + 1, g2 as int),
                                    compress_to_webp,
                                ) + rewrite_lazy_from(s@, (g2 + 1) as int, compress_to_webp));
                                assert(out@ + rewrite_lazy_from(s@, (g2 + 1) as int,
                                compress_to_webp) =~= lazy_spec(s@, compress_to_webp));
                            }
                            i = g2 + 1;
                        },
                        None => {},
                    }
                },
                None => {},
            }
        }
        if plain {
            proof {
                assert(img_match(s@, i as int) is None);
            }
            out.push(s[i]);
            proof {
                assert(rewrite_lazy_from(s@, i as int, compress_to_webp) == seq![s@[i as int]]
                    + rewrite_lazy_from(s@, (i + 1) as int, compress_to_webp));
                assert(out@ + rewrite_lazy_from(s@, (i + 1) as int, compress_to_webp)
                    =~= lazy_spec(s@, compress_to_webp));
            }
            i += 1;
        }
    }
    proof {
        assert(out@ =~= lazy_spec(s@, compress_to_webp));
    }
    chars_string(&out)
}

} // verus!
