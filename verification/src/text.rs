//! Bridging between `String` / `&str` and `Vec<char>`, plus small exec
//! helpers over character vectors that the scanners and resolvers share.

use vstd::prelude::*;

verus! {

/// Relies on `str::chars`: yields exactly the characters of the string,
/// in order, which is the view Verus gives to `&str`.
#[verifier::external_body]
pub fn str_chars(s: &str) -> (r: Vec<char>)
    ensures
        r@ == s@,
{
    s.chars().collect()
}

/// Relies on `String: FromIterator<char>`: collects the characters into
/// a string holding exactly those characters, in order.
#[verifier::external_body]
pub fn chars_string(v: &Vec<char>) -> (r: String)
    ensures
        r@ == v@,
{
    v.iter().collect()
}

/// True when `pat` occurs in `s` starting at position `i`.
pub open spec fn at(s: Seq<char>, i: int, pat: Seq<char>) -> bool {
    0 <= i && i + pat.len() <= s.len() && s.subrange(i, i + pat.len()) == pat
}

/// True when `s` starts with `pat`.
pub open spec fn starts_with(s: Seq<char>, pat: Seq<char>) -> bool {
    at(s, 0, pat)
}

/// True when `s` ends with `pat`.
pub open spec fn ends_with(s: Seq<char>, pat: Seq<char>) -> bool {
    at(s, s.len() - pat.len(), pat)
}

pub fn match_at(s: &Vec<char>, i: usize, pat: &Vec<char>) -> (b: bool)
    ensures
        b == at(s@, i as int, pat@),
{
    if i > s.len() || pat.len() > s.len() - i {
        assert(!at(s@, i as int, pat@));
        return false;
    }
    let mut k: usize = 0;
    while k < pat.len()
        invariant
            0 <= k <= pat.len(),
            i + pat.len() <= s.len(),
            forall|j: int| 0 <= j < k ==> s@[i + j] == pat@[j],
        decreases pat.len() - k,
    {
        if s[i + k] != pat[k] {
            assert(s@.subrange(i as int, i + pat@.len())[k as int] != pat@[k as int]);
            return false;
        }
        k += 1;
    }
    assert(s@.subrange(i as int, i + pat@.len()) =~= pat@);
    true
}

pub fn prefix_eq(s: &Vec<char>, pat: &Vec<char>) -> (b: bool)
    ensures
        b == starts_with(s@, pat@),
{
    match_at(s, 0, pat)
}

pub fn suffix_eq(s: &Vec<char>, pat: &Vec<char>) -> (b: bool)
    ensures
        b == ends_with(s@, pat@),
{
    if pat.len() > s.len() {
        assert(!ends_with(s@, pat@));
        return false;
    }
    match_at(s, s.len() - pat.len(), pat)
}

/// Appends `s[from..to]` to `out`.
pub fn push_range(out: &mut Vec<char>, s: &Vec<char>, from: usize, to: usize)
    requires
        from <= to <= s@.len(),
    ensures
        final(out)@ == old(out)@ + s@.subrange(from as int, to as int),
{
    let mut k: usize = from;
    while k < to
        invariant
            from <= k <= to <= s@.len(),
            out@ == old(out)@ + s@.subrange(from as int, k as int),
        decreases to - k,
    {
        out.push(s[k]);
        assert(s@.subrange(from as int, k + 1 as int) =~= s@.subrange(from as int, k as int).push(
            s@[k as int],
        ));
        k += 1;
    }
    assert(out@ =~= old(out)@ + s@.subrange(from as int, to as int));
}

/// Appends all of `s` to `out`.
pub fn push_all(out: &mut Vec<char>, s: &Vec<char>)
    ensures
        final(out)@ == old(out)@ + s@,
{
    push_range(out, s, 0, s.len());
    assert(s@.subrange(0, s@.len() as int) =~= s@);
}

/// Copies `s[from..to]` into a fresh vector.
pub fn copy_range(s: &Vec<char>, from: usize, to: usize) -> (r: Vec<char>)
    requires
        from <= to <= s@.len(),
    ensures
        r@ == s@.subrange(from as int, to as int),
{
    let mut out: Vec<char> = Vec::new();
    push_range(&mut out, s, from, to);
    out
}

/// First position `k >= from` with `s[k] == c`, if any.
pub open spec fn find_from(s: Seq<char>, from: int, c: char) -> Option<int>
    decreases s.len() - from when 0 <= from <= s.len()
{
    if from >= s.len() {
        None
    } else if s[from] == c {
        Some(from)
    } else {
        find_from(s, from + 1, c)
    }
}

pub proof fn lemma_find_from(s: Seq<char>, from: int, c: char)
    requires
        0 <= from <= s.len(),
    ensures
        match find_from(s, from, c) {
            Some(k) => from <= k < s.len() && s[k] == c && forall|j: int|
                from <= j < k ==> s[j] != c,
            None => forall|j: int| from <= j < s.len() ==> s[j] != c,
        },
    decreases s.len() - from,
{
    if from < s.len() && s[from] != c {
        lemma_find_from(s, from + 1, c);
    }
}

pub fn index_of_from(s: &Vec<char>, from: usize, c: char) -> (r: Option<usize>)
    requires
        from <= s@.len(),
    ensures
        match r {
            Some(k) => Some(k as int) == find_from(s@, from as int, c) && from <= k < s@.len(),
            None => find_from(s@, from as int, c) is None,
        },
{
    let mut k: usize = from;
    while k < s.len()
        invariant
            from <= k <= s@.len(),
            find_from(s@, from as int, c) == find_from(s@, k as int, c),
        decreases s@.len() - k,
    {
        if s[k] == c {
            return Some(k);
        }
        k += 1;
    }
    None
}

/// The segments of `s` from position `i` on, split at `sep`.
pub open spec fn split_sep_from(s: Seq<char>, i: int, sep: char) -> Seq<Seq<char>>
    decreases s.len() - i when 0 <= i <= s.len() via split_sep_from_decreases
{
    match find_from(s, i, sep) {
        None => seq![s.subrange(i, s.len() as int)],
        Some(k) => seq![s.subrange(i, k)] + split_sep_from(s, k + 1, sep),
    }
}

#[via_fn]
proof fn split_sep_from_decreases(s: Seq<char>, i: int, sep: char) {
    lemma_find_from(s, i, sep);
}

pub fn split_sep(s: &Vec<char>, sep: char) -> (r: Vec<Vec<char>>)
    ensures
        r.deep_view() == split_sep_from(s@, 0, sep),
{
    let n = s.len();
    let mut r: Vec<Vec<char>> = Vec::new();
    let mut start: usize = 0;
    loop
        invariant
            0 <= start <= n == s@.len(),
            split_sep_from(s@, 0, sep) == r.deep_view() + split_sep_from(s@, start as int, sep),
        decreases s@.len() - start,
    {
        proof {
            lemma_find_from(s@, start as int, sep);
        }
        match index_of_from(s, start, sep) {
            Some(k) => {
                let seg = copy_range(s, start, k);
                let ghost prev = r.deep_view();
                r.push(seg);
                proof {
                    assert(r.deep_view() =~~= prev.push(seg@));
                    assert(split_sep_from(s@, 0, sep) =~= r.deep_view() + split_sep_from(
                        s@,
                        (k + 1) as int,
                        sep,
                    ));
                }
                start = k + 1;
            },
            None => {
                let seg = copy_range(s, start, n);
                let ghost prev = r.deep_view();
                r.push(seg);
                proof {
                    assert(r.deep_view() =~~= prev.push(seg@));
                    assert(split_sep_from(s@, start as int, sep) =~= seq![seg@]);
                    assert(split_sep_from(s@, 0, sep) =~= r.deep_view());
                }
                return r;
            },
        }
    }
}

} // verus!
