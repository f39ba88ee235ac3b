//! Filename sanitization for canonical asset paths, decimal and
//! hexadecimal rendering of numbers, and the hidden-entry filter used by
//! tree walks.

use vstd::prelude::*;

verus! {

/// Characters kept verbatim by [`sanitize_filename`]: ASCII
/// alphanumerics, `.`, `-` and `_`.
pub open spec fn keep_char(c: char) -> bool {
    ('a' <= c && c <= 'z') || ('A' <= c && c <= 'Z') || ('0' <= c && c <= '9') || c == '.' || c
        == '-' || c == '_'
}

/// The lowercase hexadecimal digit for `n` in `0..16`.
pub open spec fn hex_digit(n: int) -> char {
    if n == 0 {
        '0'
    } else if n == 1 {
        '1'
    } else if n == 2 {
        '2'
    } else if n == 3 {
        '3'
    } else if n == 4 {
        '4'
    } else if n == 5 {
        '5'
    } else if n == 6 {
        '6'
    } else if n == 7 {
        '7'
    } else if n == 8 {
        '8'
    } else if n == 9 {
        '9'
    } else if n == 10 {
        'a'
    } else if n == 11 {
        'b'
    } else if n == 12 {
        'c'
    } else if n == 13 {
        'd'
    } else if n == 14 {
        'e'
    } else {
        'f'
    }
}

/// Lowercase hexadecimal rendering of `n`, zero-padded on the left to at
/// least `min_digits` digits.
pub open spec fn hex_of(n: int, min_digits: int) -> Seq<char>
    decreases n, min_digits when n >= 0
{
    if n < 16 && min_digits <= 1 {
        seq![hex_digit(n)]
    } else {
        hex_of(n / 16, min_digits - 1).push(hex_digit(n % 16))
    }
}

/// Decimal rendering of `n`, without leading zeros.
pub open spec fn dec_of(n: int) -> Seq<char>
    decreases n when n >= 0
{
    let d = hex_digit(n % 10);
    if n < 10 {
        seq![d]
    } else {
        dec_of(n / 10).push(d)
    }
}

/// The expansion of one character of a path: path separators flatten to
/// `-`, kept characters stand as they are, and everything else is
/// escaped as `-u` followed by at least four lowercase hex digits of the
/// code point.
pub open spec fn sanitize_char(c: char) -> Seq<char> {
    if c == '/' || c == '\\' {
        seq!['-']
    } else if keep_char(c) {
        seq![c]
    } else {
        seq!['-', 'u'] + hex_of((c as u32) as int, 4)
    }
}

/// The sanitized form of a whole path.
pub open spec fn sanitize_spec(s: Seq<char>) -> Seq<char>
    decreases s.len(),
{
    if s.len() == 0 {
        Seq::empty()
    } else {
        sanitize_spec(s.drop_last()) + sanitize_char(s.last())
    }
}

pub proof fn lemma_sanitize_push(s: Seq<char>, c: char)
    ensures
        sanitize_spec(s.push(c)) == sanitize_spec(s) + sanitize_char(c),
{
    assert(s.push(c).drop_last() =~= s);
    assert(s.push(c).last() == c);
}

fn push_hex(out: &mut Vec<char>, n: u32, min_digits: u8)
    ensures
        final(out)@ == old(out)@ + hex_of(n as int, min_digits as int),
    decreases n, min_digits,
{
    let d = n % 16;
    let dc: char = if d == 0 {
        '0'
    } else if d == 1 {
        '1'
    } else if d == 2 {
        '2'
    } else if d == 3 {
        '3'
    } else if d == 4 {
        '4'
    } else if d == 5 {
        '5'
    } else if d == 6 {
        '6'
    } else if d == 7 {
        '7'
    } else if d == 8 {
        '8'
    } else if d == 9 {
        '9'
    } else if d == 10 {
        'a'
    } else if d == 11 {
        'b'
    } else if d == 12 {
        'c'
    } else if d == 13 {
        'd'
    } else if d == 14 {
        'e'
    } else {
        'f'
    };
    assert(dc == hex_digit(n as int % 16));
    if n < 16 && min_digits <= 1 {
        out.push(dc);
    } else {
        let next_min: u8 = if min_digits == 0 {
            0
        } else {
            min_digits - 1
        };
        assert(hex_of(n as int, min_digits as int) == hex_of(
            n as int / 16,
            min_digits as int - 1,
        ).push(hex_digit(n as int % 16)));
        assert(hex_of(n as int / 16, min_digits as int - 1) == hex_of(
            n as int / 16,
            next_min as int,
        )) by {
            if min_digits == 0 {
                lemma_hex_min_clip(n as int / 16, -1);
            }
        }
        push_hex(out, n / 16, next_min);
        out.push(dc);
        assert(out@ =~= old(out)@ + hex_of(n as int, min_digits as int));
    }
}

proof fn lemma_hex_min_clip(n: int, min_digits: int)
    requires
        n >= 0,
        min_digits <= 0,
    ensures
        hex_of(n, min_digits) == hex_of(n, 0),
    decreases n,
{
    if !(n < 16) {
        lemma_hex_min_clip(n / 16, min_digits - 1);
        lemma_hex_min_clip(n / 16, -1);
    }
}

/// Appends the decimal rendering of `n` to `out`.
pub fn push_dec(out: &mut Vec<char>, n: usize)
    ensures
        final(out)@ == old(out)@ + dec_of(n as int),
    decreases n,
{
    let d = n % 10;
    let dc: char = if d == 0 {
        '0'
    } else if d == 1 {
        '1'
    } else if d == 2 {
        '2'
    } else if d == 3 {
        '3'
    } else if d == 4 {
        '4'
    } else if d == 5 {
        '5'
    } else if d == 6 {
        '6'
    } else if d == 7 {
        '7'
    } else if d == 8 {
        '8'
    } else {
        '9'
    };
    assert(dc == hex_digit(n as int % 10));
    if n < 10 {
        out.push(dc);
    } else {
        push_dec(out, n / 10);
        out.push(dc);
        assert(out@ =~= old(out)@ + dec_of(n as int));
    }
}

/// Decimal rendering of `n` as a fresh vector.
pub fn dec_chars(n: usize) -> (r: Vec<char>)
    ensures
        r@ == dec_of(n as int),
{
    let mut out: Vec<char> = Vec::new();
    push_dec(&mut out, n);
    out
}

fn keep_char_exec(c: char) -> (b: bool)
    ensures
        b == keep_char(c),
{
    ('a' <= c && c <= 'z') || ('A' <= c && c <= 'Z') || ('0' <= c && c <= '9') || c == '.' || c
        == '-' || c == '_'
}

/// Appends the sanitized form of every character of `s` to `out`.
pub fn push_sanitized(out: &mut Vec<char>, s: &Vec<char>)
    ensures
        final(out)@ == old(out)@ + sanitize_spec(s@),
{
    let mut i: usize = 0;
    while i < s.len()
        invariant
            0 <= i <= s@.len(),
            out@ == old(out)@ + sanitize_spec(s@.subrange(0, i as int)),
        decreases s@.len() - i,
    {
        let c = s[i];
        if c == '/' || c == '\\' {
            out.push('-');
        } else if keep_char_exec(c) {
            out.push(c);
        } else {
            out.push('-');
            out.push('u');
            push_hex(out, c as u32, 4);
        }
        proof {
            lemma_sanitize_push(s@.subrange(0, i as int), c);
            assert(s@.subrange(0, (i + 1) as int) =~= s@.subrange(0, i as int).push(s@[i as int]));
            assert(out@ =~= old(out)@ + sanitize_spec(s@.subrange(0, (i + 1) as int)));
        }
        i += 1;
    }
    assert(s@.subrange(0, s@.len() as int) =~= s@);
}

/// Sanitizes a path for use under `/static/`: separators flatten to
/// `-`, ASCII alphanumerics and `.`, `-`, `_` stay, and every other
/// character becomes `-u` followed by its code point in lowercase hex,
/// zero-padded to four digits.
pub fn sanitize_filename(path: &str) -> (r: String)
    ensures
        r@ == sanitize_spec(path@),
{
    let s = crate::text::str_chars(path);
    let mut out: Vec<char> = Vec::new();
    push_sanitized(&mut out, &s);
    crate::text::chars_string(&out)
}

/// The hidden-entry filter for content-tree walks: a directory is
/// skipped when its name starts with a dot; files always pass.
pub fn is_not_hidden_dir(is_dir: bool, name: &str) -> (r: bool)
    ensures
        r == (!is_dir || !(name@.len() > 0 && name@[0] == '.')),
{
    if is_dir {
        let s = crate::text::str_chars(name);
        !(s.len() > 0 && s[0] == '.')
    } else {
        true
    }
}

} // verus!
