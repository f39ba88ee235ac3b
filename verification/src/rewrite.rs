//! The reference rewriter: four scanning passes over a document body
//! that rewrite standard images, embed-style images, double-bracket
//! internal links and parenthetical wiki-namespace links into canonical
//! targets.

use vstd::prelude::*;

use crate::paths::{
    find_last, find_unique_image_spec, find_unique_internal_link_spec, internal_link_spec,
    resolve_path_spec, FileIndex,
};
use crate::text::{
    at, chars_string, copy_range, find_from, index_of_from, lemma_find_from, match_at, prefix_eq,
    push_all, push_range, starts_with, str_chars,
};

verus! {

/// First position `k >= from` holding either `c1` or `c2`, if any.
pub open spec fn find2_from(s: Seq<char>, from: int, c1: char, c2: char) -> Option<int>
    decreases s.len() - from when 0 <= from <= s.len()
{
    if from >= s.len() {
        None
    } else if s[from] == c1 || s[from] == c2 {
        Some(from)
    } else {
        find2_from(s, from + 1, c1, c2)
    }
}

pub proof fn lemma_find2_from(s: Seq<char>, from: int, c1: char, c2: char)
    requires
        0 <= from <= s.len(),
    ensures
        match find2_from(s, from, c1, c2) {
            Some(k) => from <= k < s.len() && (s[k] == c1 || s[k] == c2),
            None => true,
        },
    decreases s.len() - from,
{
    if from < s.len() && s[from] != c1 && s[from] != c2 {
        lemma_find2_from(s, from + 1, c1, c2);
    }
}

fn index_of2_from(s: &Vec<char>, from: usize, c1: char, c2: char) -> (r: Option<usize>)
    requires
        from <= s@.len(),
    ensures
        match r {
            Some(k) => Some(k as int) == find2_from(s@, from as int, c1, c2) && from <= k
                < s@.len(),
            None => find2_from(s@, from as int, c1, c2) is None,
        },
{
    let mut k: usize = from;
    while k < s.len()
        invariant
            from <= k <= s@.len(),
            find2_from(s@, from as int, c1, c2) == find2_from(s@, k as int, c1, c2),
        decreases s@.len() - k,
    {
        if s[k] == c1 || s[k] == c2 {
            return Some(k);
        }
        k += 1;
    }
    None
}

/// The lazy search for the closing half of a parenthetical reference:
/// the first position `j` at which `pat` stands, reached without
/// crossing a newline, such that the first `)` after `pat` leaves a
/// non-empty argument; `k` is that closing parenthesis.
pub open spec fn close_find(s: Seq<char>, j: int, pat: Seq<char>) -> Option<(int, int)>
    decreases s.len() - j when 0 <= j <= s.len() && pat.len() >= 1
{
    if j + pat.len() > s.len() {
        None
    } else if s[j] == '\n' {
        None
    } else if at(s, j, pat) {
        match find_from(s, j + pat.len(), ')') {
            Some(k) => if k > j + pat.len() {
                Some((j, k))
            } else {
                close_find(s, j + 1, pat)
            },
            None => close_find(s, j + 1, pat),
        }
    } else {
        close_find(s, j + 1, pat)
    }
}

pub proof fn lemma_close_find(s: Seq<char>, j0: int, pat: Seq<char>)
    requires
        0 <= j0 <= s.len(),
        pat.len() >= 1,
    ensures
        match close_find(s, j0, pat) {
            Some(jk) => j0 <= jk.0 && jk.0 + pat.len() < jk.1 < s.len() && s[jk.1] == ')' && at(
                s,
                jk.0,
                pat,
            ),
            None => true,
        },
    decreases s.len() - j0,
{
    if j0 + pat.len() > s.len() || s[j0] == '\n' {
    } else {
        if at(s, j0, pat) {
            lemma_find_from(s, j0 + pat.len(), ')');
        }
        lemma_close_find(s, j0 + 1, pat);
    }
}

fn close_find_exec(s: &Vec<char>, j0: usize, pat: &Vec<char>) -> (r: Option<(usize, usize)>)
    requires
        j0 <= s@.len(),
        pat@.len() >= 1,
    ensures
        match r {
            Some(jk) => close_find(s@, j0 as int, pat@) == Some((jk.0 as int, jk.1 as int)) && j0
                <= jk.0 && jk.0 + pat@.len() < jk.1 < s@.len(),
            None => close_find(s@, j0 as int, pat@) is None,
        },
{
    let n = s.len();
    let mut j: usize = j0;
    loop
        invariant
            j0 <= j,
            j <= n == s@.len(),
            pat@.len() >= 1,
            close_find(s@, j0 as int, pat@) == close_find(s@, j as int, pat@),
        decreases s@.len() - j,
    {
        if pat.len() > n - j {
            return None;
        }
        if s[j] == '\n' {
            return None;
        }
        if match_at(s, j, pat) {
            proof {
                lemma_find_from(s@, j + pat@.len(), ')');
            }
            match index_of_from(s, j + pat.len(), ')') {
                Some(k) => {
                    if k > j + pat.len() {
                        return Some((j, k));
                    }
                },
                None => {},
            }
        }
        j += 1;
    }
}

/// One rewritten wiki-namespace reference: display text, then the
/// Wikipedia article URL.
pub open spec fn wiki_replacement(display: Seq<char>, article: Seq<char>) -> Seq<char> {
    seq!['['] + display + "](https://en.wikipedia.org/wiki/"@ + article + seq![')']
}

/// The wiki-namespace pass from position `i` on: every parenthetical
/// `wiki:` reference becomes a Wikipedia link, everything else stands.
pub open spec fn rewrite_wiki_from(s: Seq<char>, i: int) -> Seq<char>
    decreases s.len() - i when 0 <= i <= s.len() via rewrite_wiki_from_decreases
{
    if i >= s.len() {
        Seq::empty()
    } else if s[i] == '[' && close_find(s, i + 1, "](wiki:"@) is Some {
        let jk = close_find(s, i + 1, "](wiki:"@)->Some_0;
        wiki_replacement(s.subrange(i + 1, jk.0), s.subrange(jk.0 + 7, jk.1)) + rewrite_wiki_from(
            s,
            jk.1 + 1,
        )
    } else {
        seq![s[i]] + rewrite_wiki_from(s, i + 1)
    }
}

#[via_fn]
proof fn rewrite_wiki_from_decreases(s: Seq<char>, i: int) {
    if i < s.len() && s[i] == '[' {
        reveal_strlit("](wiki:");
        lemma_close_find(s, i + 1, "](wiki:"@);
    }
}

/// The whole wiki-namespace pass over a document body.
pub open spec fn rewrite_wiki_spec(s: Seq<char>) -> Seq<char> {
    rewrite_wiki_from(s, 0)
}

/// Rewrites every parenthetical `[display](wiki:article)` reference
/// into a `https://en.wikipedia.org/wiki/` link.
pub fn process_wiki_parenthetical_links(markdown: &str) -> (r: String)
    ensures
        r@ == rewrite_wiki_spec(markdown@),
{
    let s = str_chars(markdown);
    let pat = str_chars("](wiki:");
    let url = str_chars("](https://en.wikipedia.org/wiki/");
    proof {
        reveal_strlit("](wiki:");
        reveal_strlit("](https://en.wikipedia.org/wiki/");
    }
    let n = s.len();
    let mut out: Vec<char> = Vec::new();
    let mut i: usize = 0;
    while i < n
        invariant
            0 <= i <= n == s@.len(),
            pat@ == "](wiki:"@,
            url@ == "](https://en.wikipedia.org/wiki/"@,
            out@ + rewrite_wiki_from(s@, i as int) == rewrite_wiki_from(s@, 0),
        decreases n - i,
    {
        proof {
            reveal_strlit("](wiki:");
            reveal_strlit("](https://en.wikipedia.org/wiki/");
        }
        let mut plain = true;
        if s[i] == '[' {
            match close_find_exec(&s, i + 1, &pat) {
                Some((j, k)) => {
                    plain = false;
                    out.push('[');
                    push_range(&mut out, &s, i + 1, j);
                    push_all(&mut out, &url);
                    push_range(&mut out, &s, j + 7, k);
                    out.push(')');
                    proof {
                        assert(rewrite_wiki_from(s@, i as int) == wiki_replacement(
                            s@.subrange(i + 1, j as int),
                            s@.subrange(j + 7, k as int),
                        ) + rewrite_wiki_from(s@, (k + 1) as int));
                        assert(out@ + rewrite_wiki_from(s@, (k + 1) as int) =~= rewrite_wiki_from(
                            s@,
                            0,
                        ));
                    }
                    i = k + 1;
                },
                None => {},
            }
        }
        if plain {
            out.push(s[i]);
            proof {
                assert(rewrite_wiki_from(s@, i as int) == seq![s@[i as int]] + rewrite_wiki_from(
                    s@,
                    (i + 1) as int,
                ));
                assert(out@ + rewrite_wiki_from(s@, (i + 1) as int) =~= rewrite_wiki_from(s@, 0));
            }
            i += 1;
        }
    }
    proof {
        assert(rewrite_wiki_from(s@, n as int) == Seq::<char>::empty());
        assert(out@ =~= rewrite_wiki_from(s@, 0));
    }
    chars_string(&out)
}

/// True of references left untouched by rewriting: absolute URLs and
/// site-absolute paths.
pub open spec fn is_absolute_ref(p: Seq<char>) -> bool {
    starts_with(p, "http://"@) || starts_with(p, "https://"@) || (p.len() > 0 && p[0] == '/')
}

fn is_absolute_ref_exec(p: &Vec<char>) -> (r: bool)
    ensures
        r == is_absolute_ref(p@),
{
    let http = str_chars("http://");
    let https = str_chars("https://");
    proof {
        reveal_strlit("http://");
        reveal_strlit("https://");
    }
    prefix_eq(p, &http) || prefix_eq(p, &https) || (p.len() > 0 && p[0] == '/')
}


fn push_image(out: &mut Vec<char>, s: &Vec<char>, a: usize, b: usize, target: &Vec<char>)
    requires
        a <= b <= s@.len(),
    ensures
        final(out)@ == old(out)@ + image_replacement(s@.subrange(a as int, b as int), target@),
{
    out.push('!');
    out.push('[');
    push_range(out, s, a, b);
    out.push(']');
    out.push('(');
    push_all(out, target);
    out.push(')');
    assert(out@ =~= old(out)@ + image_replacement(s@.subrange(a as int, b as int), target@));
}

/// One rewritten image reference.
pub open spec fn image_replacement(alt: Seq<char>, target: Seq<char>) -> Seq<char> {
    seq!['!', '['] + alt + seq![']', '('] + target + seq![')']
}

/// The standard-image pass from position `i` on: each Markdown image
/// whose target is relative is resolved to its `/static/` path.
pub open spec fn rewrite_images_from(s: Seq<char>, i: int, cur: Seq<char>) -> Seq<char>
    decreases s.len() - i when 0 <= i <= s.len() via rewrite_images_from_decreases
{
    if i >= s.len() {
        Seq::empty()
    } else if s[i] == '!' && i + 1 < s.len() && s[i + 1] == '[' && close_find(s, i + 2, "]("@)
        is Some {
        let jk = close_find(s, i + 2, "]("@)->Some_0;
        let alt = s.subrange(i + 2, jk.0);
        let path = s.subrange(jk.0 + 2, jk.1);
        let target = if is_absolute_ref(path) {
            path
        } else {
            resolve_path_spec(path, cur)
        };
        image_replacement(alt, target) + rewrite_images_from(s, jk.1 + 1, cur)
    } else {
        seq![s[i]] + rewrite_images_from(s, i + 1, cur)
    }
}

#[via_fn]
proof fn rewrite_images_from_decreases(s: Seq<char>, i: int, cur: Seq<char>) {
    if i + 1 < s.len() && s[i] == '!' && s[i + 1] == '[' {
        reveal_strlit("](");
        lemma_close_find(s, i + 2, "]("@);
    }
}

/// The whole standard-image pass over a document body.
pub open spec fn rewrite_images_spec(s: Seq<char>, cur: Seq<char>) -> Seq<char> {
    rewrite_images_from(s, 0, cur)
}

/// Rewrites every `![alt](path)` image whose path is relative into its
/// canonical `/static/` asset path.
#[verifier::rlimit(100)]
pub fn process_standard_images(markdown: &str, current_path: &str) -> (r: String)
    ensures
        r@ == rewrite_images_spec(markdown@, current_path@),
{
    let s = str_chars(markdown);
    let cur = str_chars(current_path);
    let pat = str_chars("](");
    proof {
        reveal_strlit("](");
    }
    let n = s.len();
    let mut out: Vec<char> = Vec::new();
    let mut i: usize = 0;
    while i < n
        invariant
            0 <= i <= n == s@.len(),
            pat@ == "]("@,
            cur@ == current_path@,
            out@ + rewrite_images_from(s@, i as int, cur@) == rewrite_images_from(s@, 0, cur@),
        decreases n - i,
    {
        proof {
            reveal_strlit("](");
        }
        let mut plain = true;
        if s[i] == '!' && i + 1 < n && s[i + 1] == '[' {
            match close_find_exec(&s, i + 2, &pat) {
                Some((j, k)) => {
                    plain = false;
                    let path = copy_range(&s, j + 2, k);
                    let target: Vec<char> = if is_absolute_ref_exec(&path) {
                        path
                    } else {
                        crate::paths::resolve_path_vec(&path, &cur)
                    };
                    proof {
                        assert(target@ == if is_absolute_ref(s@.subrange(j + 2, k as int)) {
                            s@.subrange(j + 2, k as int)
                        } else {
                            resolve_path_spec(s@.subrange(j + 2, k as int), cur@)
                        });
                    }
                    push_image(&mut out, &s, i + 2, j, &target);
                    proof {
                        assert(rewrite_images_from(s@, i as int, cur@) == image_replacement(
                            s@.subrange(i + 2, j as int),
                            target@,
                        ) + rewrite_images_from(s@, (k + 1) as int, cur@));
                        assert(out@ + rewrite_images_from(s@, (k + 1) as int, cur@)
                            =~= rewrite_images_from(s@, 0, cur@));
                    }
                    i = k + 1;
                },
                None => {},
            }
        }
        if plain {
            out.push(s[i]);
            proof {
                assert(rewrite_images_from(s@, i as int, cur@) == seq![s@[i as int]]
                    + rewrite_images_from(s@, (i + 1) as int, cur@));
                assert(out@ + rewrite_images_from(s@, (i + 1) as int, cur@)
                    =~= rewrite_images_from(s@, 0, cur@));
            }
            i += 1;
        }
    }
    proof {
        assert(out@ =~= rewrite_images_from(s@, 0, cur@));
    }
    chars_string(&out)
}

/// The body of a double-bracket reference starting at `a`: the end of
/// its target (a `|` or `]`) and the position just past the closing
/// `]]`, when the reference is well formed.
pub open spec fn bb_match(s: Seq<char>, a: int) -> Option<(int, int)>
    recommends
        0 <= a <= s.len(),
{
    match find2_from(s, a, '|', ']') {
        None => None,
        Some(t) => if t == a {
            None
        } else if s[t] == ']' {
            if t + 1 < s.len() && s[t + 1] == ']' {
                Some((t, t + 2))
            } else {
                None
            }
        } else {
            match find_from(s, t + 1, ']') {
                None => None,
                Some(d) => if d + 1 < s.len() && s[d + 1] == ']' {
                    Some((t, d + 2))
                } else {
                    None
                },
            }
        },
    }
}

pub proof fn lemma_bb_match(s: Seq<char>, a: int)
    requires
        0 <= a <= s.len(),
    ensures
        match bb_match(s, a) {
            Some(te) => a < te.0 && te.0 + 2 <= te.1 <= s.len() && (s[te.0] == '|' || s[te.0]
                == ']') && (s[te.0] == '|' ==> te.0 + 1 <= te.1 - 2 < s.len()),
            None => true,
        },
{
    lemma_find2_from(s, a, '|', ']');
    match find2_from(s, a, '|', ']') {
        None => {},
        Some(t) => {
            if t != a && s[t] == '|' {
                lemma_find_from(s, t + 1, ']');
            }
        },
    }
}

fn bb_match_exec(s: &Vec<char>, a: usize) -> (r: Option<(usize, usize)>)
    requires
        a <= s@.len(),
    ensures
        match r {
            Some(te) => bb_match(s@, a as int) == Some((te.0 as int, te.1 as int)) && a < te.0
                && te.0 + 2 <= te.1 <= s@.len(),
            None => bb_match(s@, a as int) is None,
        },
{
    proof {
        lemma_bb_match(s@, a as int);
    }
    let n = s.len();
    match index_of2_from(s, a, '|', ']') {
        None => None,
        Some(t) => {
            if t == a {
                None
            } else if s[t] == ']' {
                if t + 1 < n && s[t + 1] == ']' {
                    Some((t, t + 2))
                } else {
                    None
                }
            } else {
                match index_of_from(s, t + 1, ']') {
                    None => None,
                    Some(d) => {
                        if d + 1 < n && s[d + 1] == ']' {
                            Some((t, d + 2))
                        } else {
                            None
                        }
                    },
                }
            }
        },
    }
}

/// The embed-image pass from position `i` on: each `![[name|alt]]`
/// reference is resolved through the file index.
pub open spec fn rewrite_alt_images_from(
    s: Seq<char>,
    i: int,
    cur: Seq<char>,
    idx: Seq<(Seq<char>, Seq<char>)>,
) -> Seq<char>
    decreases s.len() - i when 0 <= i <= s.len() via rewrite_alt_images_from_decreases
{
    if i >= s.len() {
        Seq::empty()
    } else if s[i] == '!' && i + 2 < s.len() && s[i + 1] == '[' && s[i + 2] == '[' && bb_match(
        s,
        i + 3,
    ) is Some {
        let te = bb_match(s, i + 3)->Some_0;
        let target = s.subrange(i + 3, te.0);
        let alt = if s[te.0] == '|' {
            s.subrange(te.0 + 1, te.1 - 2)
        } else {
            Seq::<char>::empty()
        };
        let out_target = if is_absolute_ref(target) {
            target
        } else {
            find_unique_image_spec(target, cur, idx)
        };
        image_replacement(alt, out_target) + rewrite_alt_images_from(s, te.1, cur, idx)
    } else {
        seq![s[i]] + rewrite_alt_images_from(s, i + 1, cur, idx)
    }
}

#[via_fn]
proof fn rewrite_alt_images_from_decreases(
    s: Seq<char>,
    i: int,
    cur: Seq<char>,
    idx: Seq<(Seq<char>, Seq<char>)>,
) {
    if i + 2 < s.len() && s[i] == '!' && s[i + 1] == '[' && s[i + 2] == '[' {
        lemma_bb_match(s, i + 3);
    }
}

/// The whole embed-image pass over a document body.
pub open spec fn rewrite_alt_images_spec(
    s: Seq<char>,
    cur: Seq<char>,
    idx: Seq<(Seq<char>, Seq<char>)>,
) -> Seq<char> {
    rewrite_alt_images_from(s, 0, cur, idx)
}

/// Rewrites every `![[name]]` / `![[name|alt]]` embed-style image into
/// a standard image pointing at its canonical `/static/` path.
#[verifier::rlimit(100)]
pub fn process_alternative_images(markdown: &str, current_path: &str, index: &FileIndex) -> (r:
    String)
    ensures
        r@ == rewrite_alt_images_spec(markdown@, current_path@, index@),
{
    let s = str_chars(markdown);
    let cur = str_chars(current_path);
    let n = s.len();
    let mut out: Vec<char> = Vec::new();
    let mut i: usize = 0;
    while i < n
        invariant
            0 <= i <= n == s@.len(),
            cur@ == current_path@,
            out@ + rewrite_alt_images_from(s@, i as int, cur@, index@) == rewrite_alt_images_from(
                s@,
                0,
                cur@,
                index@,
            ),
        decreases n - i,
    {
        let mut plain = true;
        if s[i] == '!' && n - i > 2 && s[i + 1] == '[' && s[i + 2] == '[' {
            match bb_match_exec(&s, i + 3) {
                Some((t, end)) => {
                    proof {
                        lemma_bb_match(s@, (i + 3) as int);
                    }
                    plain = false;
                    let target = copy_range(&s, i + 3, t);
                    let out_target: Vec<char> = if is_absolute_ref_exec(&target) {
                        target
                    } else {
                        let ts = chars_string(&target);
                        let resolved = crate::paths::find_unique_image(
                            ts.as_str(),
                            current_path,
                            index,
                        );
                        str_chars(resolved.as_str())
                    };
                    out.push('!');
                    out.push('[');
                    if s[t] == '|' {
                        push_range(&mut out, &s, t + 1, end - 2);
                    }
                    out.push(']');
                    out.push('(');
                    push_all(&mut out, &out_target);
                    out.push(')');
                    proof {
                        assert(rewrite_alt_images_from(s@, i as int, cur@, index@)
                            == image_replacement(
                            if s@[t as int] == '|' {
                                s@.subrange(t + 1, end - 2)
                            } else {
                                Seq::<char>::empty()
                            },
                            out_target@,
                        ) + rewrite_alt_images_from(s@, end as int, cur@, index@));
                        assert(out@ + rewrite_alt_images_from(s@, end as int, cur@, index@)
                            =~= rewrite_alt_images_from(s@, 0, cur@, index@));
                    }
                    i = end;
                },
                None => {},
            }
        }
        if plain {
            out.push(s[i]);
            proof {
                assert(rewrite_alt_images_from(s@, i as int, cur@, index@) == seq![s@[i as int]]
                    + rewrite_alt_images_from(s@, (i + 1) as int, cur@, index@));
                assert(out@ + rewrite_alt_images_from(s@, (i + 1) as int, cur@, index@)
                    =~= rewrite_alt_images_from(s@, 0, cur@, index@));
            }
            i += 1;
        }
    }
    proof {
        assert(out@ =~= rewrite_alt_images_from(s@, 0, cur@, index@));
    }
    chars_string(&out)
}

/// A target with its `wiki:` prefix removed, if it carries one.
pub open spec fn strip_wiki_prefix(t: Seq<char>) -> Seq<char> {
    if starts_with(t, "wiki:"@) {
        t.subrange(5, t.len() as int)
    } else {
        t
    }
}

/// The display text used when a double-bracket link names none: the
/// final path segment of the target, its `wiki:` prefix stripped.
pub open spec fn default_display(target: Seq<char>) -> Seq<char> {
    let st = strip_wiki_prefix(target);
    match find_last(st, '/') {
        Some(k) => st.subrange(k + 1, st.len() as int),
        None => st,
    }
}

/// One rewritten double-bracket link.
pub open spec fn link_replacement(
    target: Seq<char>,
    display: Seq<char>,
    idx: Seq<(Seq<char>, Seq<char>)>,
) -> Seq<char> {
    if starts_with(target, "wiki:"@) {
        seq!['['] + "wiki:"@ + display + "](https://en.wikipedia.org/wiki/"@ + target.subrange(
            5,
            target.len() as int,
        ) + seq![')']
    } else if !is_absolute_ref(target) {
        let link = if find_from(target, 0, '/') is None {
            find_unique_internal_link_spec(target, idx)
        } else {
            internal_link_spec(target)
        };
        seq!['['] + display + seq![']', '('] + link + seq![')']
    } else {
        seq!['['] + display + seq![']', '('] + target + seq![')']
    }
}

/// The internal-link pass from position `i` on: each `[[target]]` or
/// `[[target|display]]` reference becomes a Markdown link with a
/// canonical target.
pub open spec fn rewrite_links_from(s: Seq<char>, i: int, idx: Seq<(Seq<char>, Seq<char>)>) -> Seq<
    char,
>
    decreases s.len() - i when 0 <= i <= s.len() via rewrite_links_from_decreases
{
    if i >= s.len() {
        Seq::empty()
    } else if s[i] == '[' && i + 1 < s.len() && s[i + 1] == '[' && bb_match(s, i + 2) is Some {
        let te = bb_match(s, i + 2)->Some_0;
        let target = s.subrange(i + 2, te.0);
        let display = if s[te.0] == '|' {
            s.subrange(te.0 + 1, te.1 - 2)
        } else {
            default_display(target)
        };
        link_replacement(target, display, idx) + rewrite_links_from(s, te.1, idx)
    } else {
        seq![s[i]] + rewrite_links_from(s, i + 1, idx)
    }
}

#[via_fn]
proof fn rewrite_links_from_decreases(s: Seq<char>, i: int, idx: Seq<(Seq<char>, Seq<char>)>) {
    if i + 1 < s.len() && s[i] == '[' && s[i + 1] == '[' {
        lemma_bb_match(s, i + 2);
    }
}

/// The whole internal-link pass over a document body.
pub open spec fn rewrite_links_spec(s: Seq<char>, idx: Seq<(Seq<char>, Seq<char>)>) -> Seq<char> {
    rewrite_links_from(s, 0, idx)
}

/// Rewrites every double-bracket link: `wiki:` targets go to
/// Wikipedia, bare targets resolve through the file index, and path
/// targets resolve by the document path rule.
#[verifier::rlimit(100)]
pub fn process_links(markdown: &str, index: &FileIndex) -> (r: String)
    ensures
        r@ == rewrite_links_spec(markdown@, index@),
{
    let s = str_chars(markdown);
    let wiki = str_chars("wiki:");
    let url = str_chars("](https://en.wikipedia.org/wiki/");
    proof {
        reveal_strlit("wiki:");
        reveal_strlit("](https://en.wikipedia.org/wiki/");
    }
    let n = s.len();
    let mut out: Vec<char> = Vec::new();
    let mut i: usize = 0;
    while i < n
        invariant
            0 <= i <= n == s@.len(),
            wiki@ == "wiki:"@,
            url@ == "](https://en.wikipedia.org/wiki/"@,
            out@ + rewrite_links_from(s@, i as int, index@) == rewrite_links_from(s@, 0, index@),
        decreases n - i,
    {
        proof {
            reveal_strlit("wiki:");
        }
        let mut plain = true;
        if s[i] == '[' && i + 1 < n && s[i + 1] == '[' {
            match bb_match_exec(&s, i + 2) {
                Some((t, end)) => {
                    proof {
                        lemma_bb_match(s@, (i + 2) as int);
                    }
                    plain = false;
                    let target = copy_range(&s, i + 2, t);
                    let display: Vec<char> = if s[t] == '|' {
                        copy_range(&s, t + 1, end - 2)
                    } else {
                        let st = if prefix_eq(&target, &wiki) {
                            copy_range(&target, 5, target.len())
                        } else {
                            copy_range(&target, 0, target.len())
                        };
                        proof {
                            assert(target@.subrange(0, target@.len() as int) =~= target@);
                            assert(st@ == strip_wiki_prefix(target@));
                        }
                        match crate::paths::index_of_last(&st, '/') {
                            Some(k) => copy_range(&st, k + 1, st.len()),
                            None => st,
                        }
                    };
                    proof {
                        assert(display@ == if s@[t as int] == '|' {
                            s@.subrange(t + 1, end - 2)
                        } else {
                            default_display(s@.subrange((i + 2) as int, t as int))
                        });
                    }
                    if prefix_eq(&target, &wiki) {
                        out.push('[');
                        push_all(&mut out, &wiki);
                        push_all(&mut out, &display);
                        push_all(&mut out, &url);
                        push_range(&mut out, &target, 5, target.len());
                        out.push(')');
                    } else if !is_absolute_ref_exec(&target) {
                        let link: Vec<char> = if index_of_from(&target, 0, '/').is_none() {
                            let ts = chars_string(&target);
                            let resolved = crate::paths::find_unique_internal_link(
                                ts.as_str(),
                                index,
                            );
                            str_chars(resolved.as_str())
                        } else {
                            let ts = chars_string(&target);
                            let resolved = crate::paths::get_internal_link_path(ts.as_str());
                            str_chars(resolved.as_str())
                        };
                        out.push('[');
                        push_all(&mut out, &display);
                        out.push(']');
                        out.push('(');
                        push_all(&mut out, &link);
                        out.push(')');
                    } else {
                        out.push('[');
                        push_all(&mut out, &display);
                        out.push(']');
                        out.push('(');
                        push_all(&mut out, &target);
                        out.push(')');
                    }
                    proof {
                        assert(rewrite_links_from(s@, i as int, index@) == link_replacement(
                            s@.subrange((i + 2) as int, t as int),
                            display@,
                            index@,
                        ) + rewrite_links_from(s@, end as int, index@));
                        if starts_with(target@, "wiki:"@) {
                            assert(target@.subrange(5, target@.len() as int) =~= s@.subrange(
                                i + 7,
                                t as int,
                            ));
                        }
                        assert(out@ + rewrite_links_from(s@, end as int, index@)
                            =~= rewrite_links_from(s@, 0, index@));
                    }
                    i = end;
                },
                None => {},
            }
        }
        if plain {
            out.push(s[i]);
            proof {
                assert(rewrite_links_from(s@, i as int, index@) == seq![s@[i as int]]
                    + rewrite_links_from(s@, (i + 1) as int, index@));
                assert(out@ + rewrite_links_from(s@, (i + 1) as int, index@)
                    =~= rewrite_links_from(s@, 0, index@));
            }
            i += 1;
        }
    }
    proof {
        assert(out@ =~= rewrite_links_from(s@, 0, index@));
    }
    chars_string(&out)
}

/// All four rewriting passes, in their fixed order: standard images,
/// embed-style images, double-bracket links, then wiki-namespace
/// links.
pub open spec fn process_paths_spec(
    s: Seq<char>,
    cur: Seq<char>,
    idx: Seq<(Seq<char>, Seq<char>)>,
) -> Seq<char> {
    rewrite_wiki_spec(
        rewrite_links_spec(
            rewrite_alt_images_spec(rewrite_images_spec(s, cur), cur, idx),
            idx,
        ),
    )
}

/// Applies the four reference-rewriting passes to a document body.
pub fn process_paths(markdown: &str, current_path: &str, index: &FileIndex) -> (r: String)
    ensures
        r@ == process_paths_spec(markdown@, current_path@, index@),
{
    let a = process_standard_images(markdown, current_path);
    let b = process_alternative_images(a.as_str(), current_path, index);
    let c = process_links(b.as_str(), index);
    process_wiki_parenthetical_links(c.as_str())
}

/// True when the wiki-namespace pass finds nothing to rewrite in `s`.
pub open spec fn no_wiki_reference(s: Seq<char>) -> bool {
    forall|j: int| 0 <= j <= s.len() - "](wiki:"@.len() ==> !at(s, j, "](wiki:"@)
}

proof fn lemma_no_ref_no_match(s: Seq<char>, j0: int)
    requires
        0 <= j0 <= s.len(),
        no_wiki_reference(s),
    ensures
        close_find(s, j0, "](wiki:"@) is None,
{
    reveal_strlit("](wiki:");
    lemma_close_find(s, j0, "](wiki:"@);
    match close_find(s, j0, "](wiki:"@) {
        Some(jk) => {
            assert(at(s, jk.0, "](wiki:"@));
            assert(!at(s, jk.0, "](wiki:"@));
        },
        None => {},
    }
}

proof fn lemma_wiki_rewrite_identity(s: Seq<char>, i: int)
    requires
        0 <= i <= s.len(),
        no_wiki_reference(s),
    ensures
        rewrite_wiki_from(s, i) == s.subrange(i, s.len() as int),
    decreases s.len() - i,
{
    if i >= s.len() {
        assert(s.subrange(i, s.len() as int) =~= Seq::<char>::empty());
    } else {
        if s[i] == '[' {
            lemma_no_ref_no_match(s, i + 1);
        }
        lemma_wiki_rewrite_identity(s, i + 1);
        assert(rewrite_wiki_from(s, i) =~= s.subrange(i, s.len() as int));
    }
}

/// Idempotence of the wiki-namespace pass: once every parenthetical
/// `wiki:` reference has been rewritten away, running the pass again
/// changes nothing, so a Wikipedia URL is never escaped twice. The
/// premise excludes rewritten text that still carries a stray
/// `](wiki:` fragment, which only an unmatched reference beside a
/// matched one can leave behind.
pub proof fn lemma_wiki_pass_idempotent(s: Seq<char>)
    requires
        no_wiki_reference(rewrite_wiki_spec(s)),
    ensures
        rewrite_wiki_spec(rewrite_wiki_spec(s)) == rewrite_wiki_spec(s),
{
    let t = rewrite_wiki_spec(s);
    lemma_wiki_rewrite_identity(t, 0);
    assert(t.subrange(0, t.len() as int) =~= t);
}

/// An embed-style reference whose name matches zero file-index
/// entries is rewritten to exactly the image the path-relative
/// fallback names: nothing is silently dropped.
pub proof fn lemma_unresolved_embed_replacement(
    alt: Seq<char>,
    target: Seq<char>,
    cur: Seq<char>,
    idx: Seq<(Seq<char>, Seq<char>)>,
)
    requires
        !is_absolute_ref(target),
        crate::paths::lookup_spec(idx, target).len() == 0,
    ensures
        image_replacement(alt, find_unique_image_spec(target, cur, idx)) == image_replacement(
            alt,
            resolve_path_spec(target, cur),
        ),
{
    crate::paths::lemma_unresolved_image_falls_back(target, cur, idx);
}

/// A double-bracket link whose bare name matches zero file-index
/// entries is rewritten to exactly the document path the fallback rule
/// names.
pub proof fn lemma_unresolved_link_replacement(
    target: Seq<char>,
    display: Seq<char>,
    idx: Seq<(Seq<char>, Seq<char>)>,
)
    requires
        !starts_with(target, "wiki:"@),
        !is_absolute_ref(target),
        find_from(target, 0, '/') is None,
        crate::paths::lookup_spec(idx, target).len() == 0,
    ensures
        link_replacement(target, display, idx) == seq!['['] + display + seq![']', '(']
            + internal_link_spec(target) + seq![')'],
{
    crate::paths::lemma_unresolved_link_falls_back(target, idx);
}

} // verus!
