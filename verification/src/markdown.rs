//! The markdown renderer: parses a rewritten document body, intercepts
//! headings to derive anchors and a table of contents, and intercepts
//! fenced code blocks to emit numbered, annotated, syntax-highlighted
//! HTML.

use std::collections::HashSet;

use vstd::prelude::*;

use crate::frontmatter::{is_unicode_space, trim_spec};
use crate::text::{
    at, chars_string, copy_range, find_from, index_of_from, lemma_find_from, match_at, prefix_eq,
    push_all, starts_with, str_chars,
};

verus! {

broadcast use vstd::std_specs::hash::group_hash_axioms;

/// One backlink shown under a rendered document: the linking
/// document's title and canonical path.
pub struct Backlink {
    pub title: String,
    pub path: String,
}

impl View for Backlink {
    type V = (Seq<char>, Seq<char>);

    open spec fn view(&self) -> (Seq<char>, Seq<char>) {
        (self.title@, self.path@)
    }
}

/// One table-of-contents entry: heading depth, rendered inner text,
/// and the derived anchor id.
pub struct TOCEntry {
    pub level: u32,
    pub title: String,
    pub id: String,
}

impl View for TOCEntry {
    type V = (u32, Seq<char>, Seq<char>);

    open spec fn view(&self) -> (u32, Seq<char>, Seq<char>) {
        (self.level, self.title@, self.id@)
    }
}

/// Declares pulldown_cmark's `Event` so event values can flow through
/// verified code; the values stay opaque.
#[verifier::external_type_specification]
#[verifier::external_body]
pub struct ExEvent<'a>(pulldown_cmark::Event<'a>);

/// The events the renderer tells apart in pulldown-cmark's stream;
/// everything else passes through unchanged.
pub enum EventKind {
    HeadingStart(u32),
    HeadingEnd,
    CodeStart(String),
    CodeEnd,
    Text(String),
    Other,
}

/// The classification of pulldown-cmark's event stream for a
/// document body: one [`EventKind`] per event, in order, a function of
/// the text alone.
pub uninterp spec fn kinds_of(s: Seq<char>) -> Seq<EventKind>;

/// Relies on pulldown_cmark's `Parser::new_ext`: parses the document
/// with the GFM, strikethrough, math, footnotes, tables, task lists,
/// definition lists and smart punctuation extensions enabled, and
/// classifies each event; parsing is a function of the text alone.
#[verifier::external_body]
fn parse_markdown(text: &str) -> (r: (Vec<pulldown_cmark::Event<'_>>, Vec<EventKind>))
    ensures
        r.1@ == kinds_of(text@),
        r.0@.len() == r.1@.len(),
{
    let mut options = pulldown_cmark::Options::empty();
    options.insert(pulldown_cmark::Options::ENABLE_GFM);
    options.insert(pulldown_cmark::Options::ENABLE_STRIKETHROUGH);
    options.insert(pulldown_cmark::Options::ENABLE_MATH);
    options.insert(pulldown_cmark::Options::ENABLE_FOOTNOTES);
    options.insert(pulldown_cmark::Options::ENABLE_TABLES);
    options.insert(pulldown_cmark::Options::ENABLE_TASKLISTS);
    options.insert(pulldown_cmark::Options::ENABLE_DEFINITION_LIST);
    options.insert(pulldown_cmark::Options::ENABLE_SMART_PUNCTUATION);
    let events: Vec<pulldown_cmark::Event> =
        pulldown_cmark::Parser::new_ext(text, options).collect();
    let kinds = events.iter().map(classify_event).collect();
    (events, kinds)
}

/// Relies on pulldown_cmark's `Event`, `Tag` and `TagEnd` variants:
/// tells the intercepted constructs apart and hands out their
/// payloads; `HeadingLevel` casts to its depth, 1 through 6. The
/// helper of [`parse_markdown`], which ties the classification to
/// [`kinds_of`].
#[verifier::external_body]
fn classify_event(e: &pulldown_cmark::Event) -> (r: EventKind)
    ensures
        forall|l: u32| r == EventKind::HeadingStart(l) ==> 1 <= l <= 6,
{
    match e {
        pulldown_cmark::Event::Start(pulldown_cmark::Tag::Heading { level, .. }) =>
            EventKind::HeadingStart(*level as u32),
        pulldown_cmark::Event::Start(pulldown_cmark::Tag::CodeBlock(
            pulldown_cmark::CodeBlockKind::Fenced(info),
        )) => EventKind::CodeStart(info.to_string()),
        pulldown_cmark::Event::Start(pulldown_cmark::Tag::CodeBlock(
            pulldown_cmark::CodeBlockKind::Indented,
        )) => EventKind::CodeStart(String::new()),
        pulldown_cmark::Event::Text(t) => EventKind::Text(t.to_string()),
        pulldown_cmark::Event::End(pulldown_cmark::TagEnd::Heading(_)) => EventKind::HeadingEnd,
        pulldown_cmark::Event::End(pulldown_cmark::TagEnd::CodeBlock) => EventKind::CodeEnd,
        _ => EventKind::Other,
    }
}

/// Relies on pulldown_cmark's `html::push_html`: renders an event
/// stream to an HTML string.
#[verifier::external_body]
fn events_to_html(events: Vec<pulldown_cmark::Event>) -> (r: String) {
    let mut s = String::new();
    pulldown_cmark::html::push_html(&mut s, events.into_iter());
    s
}

/// Relies on pulldown_cmark's `Event::Html` constructor: wraps a
/// ready-made HTML fragment as an event.
#[verifier::external_body]
fn html_event(s: String) -> (r: pulldown_cmark::Event<'static>) {
    pulldown_cmark::Event::Html(s.into())
}

/// What `str::to_lowercase` returns: a function of the characters
/// alone.
pub uninterp spec fn lower_of(s: Seq<char>) -> Seq<char>;

/// Relies on `str::to_lowercase`: the result depends on the characters
/// alone.
#[verifier::external_body]
fn lowercase(s: &str) -> (r: String)
    ensures
        r@ == lower_of(s@),
{
    s.to_lowercase()
}

/// Whether a character is alphanumeric, as `char::is_alphanumeric`
/// decides it.
pub uninterp spec fn alphanumeric(c: char) -> bool;

/// Relies on `char::is_alphanumeric`: the Unicode letter/number
/// property of the character.
#[verifier::external_body]
fn char_alphanumeric(c: char) -> (r: bool)
    ensures
        r == alphanumeric(c),
{
    c.is_alphanumeric()
}

/// What inkjet renders a code block to: a function of the language
/// token and the code alone; nothing when the token is unknown to
/// inkjet or highlighting fails.
pub uninterp spec fn highlighted_of(token: Seq<char>, code: Seq<char>) -> Option<Seq<char>>;

/// Relies on inkjet's `Language::from_token` and
/// `Highlighter::highlight_to_string` with the HTML formatter: the
/// result depends on the token and the code alone; an unknown token or
/// a highlighting failure yields nothing.
#[verifier::external_body]
fn highlight_code(token: &str, code: &str) -> (r: Option<String>)
    ensures
        r.deep_view() == highlighted_of(token@, code@),
{
    let lang = inkjet::Language::from_token(token)?;
    let mut highlighter = inkjet::Highlighter::new();
    highlighter.highlight_to_string(lang, &inkjet::formatter::Html, code).ok()
}

/// The inkjet language token for a fence tag, already lower-cased:
/// the recognized names and their aliases.
pub open spec fn language_token_spec(t: Seq<char>) -> Option<Seq<char>> {
    if t == "rust"@ || t == "rs"@ {
        Some("rust"@)
    } else if t == "javascript"@ || t == "js"@ {
        Some("javascript"@)
    } else if t == "typescript"@ || t == "ts"@ {
        Some("typescript"@)
    } else if t == "python"@ || t == "py"@ {
        Some("python"@)
    } else if t == "css"@ {
        Some("css"@)
    } else if t == "scss"@ {
        Some("scss"@)
    } else if t == "html"@ {
        Some("html"@)
    } else if t == "lua"@ {
        Some("lua"@)
    } else if t == "jsx"@ {
        Some("jsx"@)
    } else if t == "tsx"@ {
        Some("tsx"@)
    } else if t == "zig"@ {
        Some("zig"@)
    } else if t == "ml"@ || t == "ocaml"@ {
        Some("ocaml"@)
    } else if t == "java"@ {
        Some("java"@)
    } else if t == "c"@ {
        Some("c"@)
    } else if t == "cpp"@ || t == "c++"@ {
        Some("cpp"@)
    } else if t == "c#"@ || t == "csharp"@ {
        Some("csharp"@)
    } else if t == "nix"@ {
        Some("nix"@)
    } else if t == "go"@ || t == "golang"@ {
        Some("go"@)
    } else {
        None
    }
}

fn chars_eq_lit(v: &Vec<char>, lit: &str) -> (r: bool)
    ensures
        r == (v@ == lit@),
{
    let pv = str_chars(lit);
    crate::paths::vec_eq(v, &pv)
}

/// Maps a fence language tag, case-insensitively, to the inkjet
/// language token the highlighter is invoked with.
#[verifier::rlimit(60)]
pub fn language_token(tag: &str) -> (r: Option<String>)
    ensures
        r.deep_view() == language_token_spec(lower_of(tag@)),
{
    let lowered = lowercase(tag);
    let lt = str_chars(lowered.as_str());
    if chars_eq_lit(&lt, "rust") || chars_eq_lit(&lt, "rs") {
        Some("rust".to_owned())
    } else if chars_eq_lit(&lt, "javascript") || chars_eq_lit(&lt, "js") {
        Some("javascript".to_owned())
    } else if chars_eq_lit(&lt, "typescript") || chars_eq_lit(&lt, "ts") {
        Some("typescript".to_owned())
    } else if chars_eq_lit(&lt, "python") || chars_eq_lit(&lt, "py") {
        Some("python".to_owned())
    } else if chars_eq_lit(&lt, "css") {
        Some("css".to_owned())
    } else if chars_eq_lit(&lt, "scss") {
        Some("scss".to_owned())
    } else if chars_eq_lit(&lt, "html") {
        Some("html".to_owned())
    } else if chars_eq_lit(&lt, "lua") {
        Some("lua".to_owned())
    } else if chars_eq_lit(&lt, "jsx") {
        Some("jsx".to_owned())
    } else if chars_eq_lit(&lt, "tsx") {
        Some("tsx".to_owned())
    } else if chars_eq_lit(&lt, "zig") {
        Some("zig".to_owned())
    } else if chars_eq_lit(&lt, "ml") || chars_eq_lit(&lt, "ocaml") {
        Some("ocaml".to_owned())
    } else if chars_eq_lit(&lt, "java") {
        Some("java".to_owned())
    } else if chars_eq_lit(&lt, "c") {
        Some("c".to_owned())
    } else if chars_eq_lit(&lt, "cpp") || chars_eq_lit(&lt, "c++") {
        Some("cpp".to_owned())
    } else if chars_eq_lit(&lt, "c#") || chars_eq_lit(&lt, "csharp") {
        Some("csharp".to_owned())
    } else if chars_eq_lit(&lt, "nix") {
        Some("nix".to_owned())
    } else if chars_eq_lit(&lt, "go") || chars_eq_lit(&lt, "golang") {
        Some("go".to_owned())
    } else {
        None
    }
}

/// First position `k >= i` holding whitespace, if any.
pub open spec fn find_space(s: Seq<char>, i: int) -> Option<int>
    decreases s.len() - i when 0 <= i <= s.len()
{
    if i >= s.len() {
        None
    } else if is_unicode_space(s[i]) {
        Some(i)
    } else {
        find_space(s, i + 1)
    }
}

pub proof fn lemma_find_space(s: Seq<char>, i: int)
    requires
        0 <= i <= s.len(),
    ensures
        match find_space(s, i) {
            Some(k) => i <= k < s.len() && is_unicode_space(s[k]),
            None => true,
        },
    decreases s.len() - i,
{
    if i < s.len() && !is_unicode_space(s[i]) {
        lemma_find_space(s, i + 1);
    }
}

/// The whitespace-separated tokens of `s` from position `i` on.
pub open spec fn ws_tokens_from(s: Seq<char>, i: int) -> Seq<Seq<char>>
    decreases s.len() - i when 0 <= i <= s.len() via ws_tokens_from_decreases
{
    if i >= s.len() {
        Seq::empty()
    } else if is_unicode_space(s[i]) {
        ws_tokens_from(s, i + 1)
    } else {
        let e = match find_space(s, i) {
            Some(k) => k,
            None => s.len() as int,
        };
        seq![s.subrange(i, e)] + ws_tokens_from(s, e)
    }
}

#[via_fn]
proof fn ws_tokens_from_decreases(s: Seq<char>, i: int) {
    if 0 <= i < s.len() && !is_unicode_space(s[i]) {
        lemma_find_space(s, i);
        assert(find_space(s, i) == find_space(s, i + 1));
        lemma_find_space(s, i + 1);
    }
}

/// The whitespace-separated tokens of `s`.
pub open spec fn ws_tokens(s: Seq<char>) -> Seq<Seq<char>> {
    ws_tokens_from(s, 0)
}

fn split_ws(s: &Vec<char>) -> (r: Vec<Vec<char>>)
    ensures
        r.deep_view() == ws_tokens(s@),
{
    let n = s.len();
    let mut r: Vec<Vec<char>> = Vec::new();
    let mut i: usize = 0;
    loop
        invariant
            0 <= i <= n == s@.len(),
            ws_tokens_from(s@, 0) == r.deep_view() + ws_tokens_from(s@, i as int),
        decreases n - i,
    {
        if i >= n {
            proof {
                assert(ws_tokens_from(s@, i as int) =~= Seq::<Seq<char>>::empty());
                assert(r.deep_view() =~= ws_tokens_from(s@, 0));
            }
            return r;
        }
        if crate::frontmatter::char_is_space(s[i]) {
            i += 1;
        } else {
            proof {
                lemma_find_space(s@, i as int);
                assert(find_space(s@, i as int) == find_space(s@, (i + 1) as int));
            }
            let mut e: usize = i + 1;
            while e < n && !crate::frontmatter::char_is_space(s[e])
                invariant
                    i < e <= n == s@.len(),
                    !is_unicode_space(s@[i as int]),
                    find_space(s@, i as int) == find_space(s@, e as int),
                decreases n - e,
            {
                e += 1;
            }
            let ghost tok_end: int = match find_space(s@, i as int) {
                Some(k) => k,
                None => s@.len() as int,
            };
            proof {
                if e < n {
                    assert(find_space(s@, e as int) == Some(e as int));
                } else {
                    assert(find_space(s@, e as int) is None);
                }
                assert(tok_end == e as int);
            }
            let tok = copy_range(s, i, e);
            let ghost prev = r.deep_view();
            r.push(tok);
            proof {
                assert(r.deep_view() =~~= prev.push(tok@));
                assert(ws_tokens_from(s@, 0) =~= r.deep_view() + ws_tokens_from(s@, e as int));
            }
            i = e;
        }
    }
}

/// The `title=` value of an info-string token: present when something
/// follows the `=`, with matching surrounding quotes removed.
pub open spec fn title_value(tok: Seq<char>) -> Option<Seq<char>> {
    if tok.len() > 6 {
        let v = tok.subrange(6, tok.len() as int);
        if v.len() >= 2 && ((v[0] == '"' && v.last() == '"') || (v[0] == '\'' && v.last()
            == '\'')) {
            Some(v.subrange(1, v.len() - 1))
        } else {
            Some(v)
        }
    } else {
        None
    }
}

/// The first `title=` token among the info-string tokens.
pub open spec fn first_title_token(toks: Seq<Seq<char>>) -> Option<Seq<char>>
    decreases toks.len(),
{
    if toks.len() == 0 {
        None
    } else if starts_with(toks[0], "title="@) {
        Some(toks[0])
    } else {
        first_title_token(toks.drop_first())
    }
}

/// The language tag of a fence info string: its first token.
pub open spec fn language_of_info(s: Seq<char>) -> Option<Seq<char>> {
    if ws_tokens(s).len() > 0 {
        Some(ws_tokens(s)[0])
    } else {
        None
    }
}

/// The filename of a fence info string: the value of its first
/// `title=` token.
pub open spec fn filename_of_info(s: Seq<char>) -> Option<Seq<char>> {
    match first_title_token(ws_tokens(s)) {
        Some(tok) => title_value(tok),
        None => None,
    }
}

/// Splits a fence info string into its language tag (the first token)
/// and the filename given by a `title=` token, if any.
pub fn extract_language_and_filename(info_string: &str) -> (r: (Option<String>, Option<String>))
    ensures
        r.0.deep_view() == language_of_info(info_string@),
        r.1.deep_view() == filename_of_info(info_string@),
{
    let sv = str_chars(info_string);
    let title_pat = str_chars("title=");
    proof {
        reveal_strlit("title=");
    }
    let toks = split_ws(&sv);
    let language: Option<String> = if toks.len() > 0 {
        proof {
            assert(toks.deep_view()[0] =~= toks@[0]@);
        }
        Some(chars_string(&toks[0]))
    } else {
        None
    };
    let filename: Option<String> = None;
    let ghost tv = toks.deep_view();
    let mut i: usize = 0;
    proof {
        assert(tv.subrange(0, tv.len() as int) =~= tv);
    }
    while i < toks.len()
        invariant
            0 <= i <= toks@.len() == tv.len(),
            tv == toks.deep_view(),
            tv == ws_tokens(info_string@),
            language.deep_view() == language_of_info(info_string@),
            title_pat@ == "title="@,
            first_title_token(tv) == first_title_token(
                tv.subrange(i as int, tv.len() as int),
            ),
        decreases toks@.len() - i,
    {
        let ghost suffix = tv.subrange(i as int, tv.len() as int);
        proof {
            assert(suffix[0] == tv[i as int]);
            assert(tv[i as int] =~= toks@[i as int]@);
            assert(suffix.drop_first() =~= tv.subrange((i + 1) as int, tv.len() as int));
        }
        if prefix_eq(&toks[i], &title_pat) {
            let tok = &toks[i];
            proof {
                assert(first_title_token(tv) == Some(tok@));
            }
            if tok.len() > 6 {
                let v = copy_range(tok, 6, tok.len());
                let stripped: Vec<char> = if v.len() >= 2 && ((v[0] == '"' && v[v.len() - 1]
                    == '"') || (v[0] == '\'' && v[v.len() - 1] == '\'')) {
                    copy_range(&v, 1, v.len() - 1)
                } else {
                    proof {
                        assert(v@.subrange(0, v@.len() as int) =~= v@);
                    }
                    copy_range(&v, 0, v.len())
                };
                proof {
                    assert(title_value(tok@) == Some(stripped@));
                }
                return (language, Some(chars_string(&stripped)));
            } else {
                proof {
                    assert(title_value(tok@) is None);
                }
                return (language, None);
            }
        } else {
            i += 1;
        }
    }
    proof {
        assert(tv.subrange(tv.len() as int, tv.len() as int) =~= Seq::<Seq<char>>::empty());
        assert(first_title_token(tv) is None);
    }
    (language, filename)
}

/// The numeric value of a decimal digit.
pub open spec fn digit_val(c: char) -> int {
    if c == '0' {
        0
    } else if c == '1' {
        1
    } else if c == '2' {
        2
    } else if c == '3' {
        3
    } else if c == '4' {
        4
    } else if c == '5' {
        5
    } else if c == '6' {
        6
    } else if c == '7' {
        7
    } else if c == '8' {
        8
    } else if c == '9' {
        9
    } else {
        -1
    }
}

/// Whether a character is a decimal digit.
pub open spec fn is_digit(c: char) -> bool {
    digit_val(c) >= 0
}

/// The value of a string of decimal digits.
pub open spec fn dec_value(t: Seq<char>) -> int
    decreases t.len(),
{
    if t.len() == 0 {
        0
    } else {
        dec_value(t.drop_last()) * 10 + digit_val(t.last())
    }
}

pub proof fn lemma_dec_value_nonneg(t: Seq<char>)
    requires
        forall|j: int| 0 <= j < t.len() ==> is_digit(t[j]),
    ensures
        dec_value(t) >= 0,
    decreases t.len(),
{
    if t.len() > 0 {
        lemma_dec_value_nonneg(t.drop_last());
    }
}

pub proof fn lemma_dec_value_prefix_le(t: Seq<char>, m: int)
    requires
        0 <= m <= t.len(),
        forall|j: int| 0 <= j < t.len() ==> is_digit(t[j]),
    ensures
        dec_value(t.subrange(0, m)) <= dec_value(t),
    decreases t.len() - m,
{
    if m < t.len() {
        lemma_dec_value_prefix_le(t, m + 1);
        lemma_dec_value_nonneg(t.subrange(0, m));
        assert(t.subrange(0, m + 1).drop_last() =~= t.subrange(0, m));
        assert(dec_value(t.subrange(0, m + 1)) == dec_value(t.subrange(0, m)) * 10 + digit_val(
            t[m],
        ));
        assert(dec_value(t.subrange(0, m)) <= dec_value(t.subrange(0, m + 1)));
    } else {
        assert(t.subrange(0, m) =~= t);
    }
}

/// `s` with one leading `+` removed.
pub open spec fn strip_plus(s: Seq<char>) -> Seq<char> {
    if s.len() > 0 && s[0] == '+' {
        s.drop_first()
    } else {
        s
    }
}

/// Whether every character is a decimal digit.
pub open spec fn all_digits(t: Seq<char>) -> bool {
    forall|j: int| 0 <= j < t.len() ==> is_digit(t[j])
}

/// What `str::parse::<usize>` accepts: an optional `+`, then digits
/// whose value fits in `usize`.
pub open spec fn parse_usize_spec(s: Seq<char>) -> Option<int> {
    let t = strip_plus(s);
    if t.len() == 0 || !all_digits(t) {
        None
    } else if dec_value(t) > usize::MAX as int {
        None
    } else {
        Some(dec_value(t))
    }
}

fn digit_of(c: char) -> (r: Option<u8>)
    ensures
        match r {
            Some(d) => is_digit(c) && d as int == digit_val(c),
            None => !is_digit(c),
        },
{
    match c {
        '0' => Some(0),
        '1' => Some(1),
        '2' => Some(2),
        '3' => Some(3),
        '4' => Some(4),
        '5' => Some(5),
        '6' => Some(6),
        '7' => Some(7),
        '8' => Some(8),
        '9' => Some(9),
        _ => None,
    }
}

/// Parses a non-negative decimal number as `str::parse::<usize>`
/// accepts it.
#[verifier::rlimit(30)]
pub fn parse_usize(s: &Vec<char>) -> (r: Option<usize>)
    ensures
        match r {
            Some(v) => parse_usize_spec(s@) == Some(v as int),
            None => parse_usize_spec(s@) is None,
        },
{
    let start: usize = if s.len() > 0 && s[0] == '+' {
        1
    } else {
        0
    };
    let n = s.len();
    let ghost t: Seq<char> = strip_plus(s@);
    proof {
        assert(t =~= s@.subrange(start as int, n as int));
    }
    if start >= n {
        proof {
            assert(t.len() == 0);
        }
        return None;
    }
    let mut val: usize = 0;
    let mut i: usize = start;
    while i < n
        invariant
            start <= i <= n == s@.len(),
            start == if s@.len() > 0 && s@[0] == '+' {
                1int
            } else {
                0int
            },
            t == s@.subrange(start as int, n as int),
            forall|j: int| start <= j < i ==> is_digit(s@[j]),
            val as int == dec_value(s@.subrange(start as int, i as int)),
        decreases n - i,
    {
        let c = s[i];
        match digit_of(c) {
            None => {
                proof {
                    assert(t == strip_plus(s@));
                    assert(0 <= (i - start) && (i - start) < t.len());
                    assert(!is_digit(t[(i - start) as int]));
                    assert(!all_digits(t));
                    assert(parse_usize_spec(s@) is None);
                }
                return None;
            },
            Some(d) => {
                proof {
                    assert(s@.subrange(start as int, (i + 1) as int).drop_last() =~= s@.subrange(
                        start as int,
                        i as int,
                    ));
                }
                if val > (usize::MAX - d as usize) / 10 {
                    proof {
                        assert(t == strip_plus(s@));
                        assert(forall|j: int| start <= j < i + 1 ==> is_digit(s@[j]));
                        assert(forall|j: int| 0 <= j < i + 1 - start ==> is_digit(t[j]));
                        assert(dec_value(s@.subrange(start as int, (i + 1) as int)) == val as int
                            * 10 + d as int);
                        assert(val as int * 10 + d as int > usize::MAX as int) by (nonlinear_arith)
                            requires
                                val as int > (usize::MAX as int - d as int) / 10,
                                0 <= d as int <= 9,
                                usize::MAX as int >= 9,
                        ;
                        if all_digits(t) {
                            assert(t.subrange(0, (i + 1 - start) as int) =~= s@.subrange(
                                start as int,
                                (i + 1) as int,
                            ));
                            lemma_dec_value_prefix_le(t, (i + 1 - start) as int);
                            assert(dec_value(t) > usize::MAX as int);
                        }
                        assert(parse_usize_spec(s@) is None);
                    }
                    return None;
                }
                val = val * 10 + d as usize;
                proof {
                    assert(val as int == dec_value(s@.subrange(start as int, (i + 1) as int)));
                }
                i += 1;
            },
        }
    }
    proof {
        assert(s@.subrange(start as int, n as int) =~= t);
        assert(all_digits(t));
        assert(parse_usize_spec(s@) == Some(val as int));
    }
    Some(val)
}

/// The set of line numbers `a` through `b`.
pub open spec fn range_set(a: int, b: int) -> Set<usize> {
    Set::new(|x: usize| a <= x as int <= b)
}

/// The line numbers one comma-separated annotation part names: a
/// single number, or an inclusive `a-b` range; anything else names
/// none.
pub open spec fn part_set(p: Seq<char>) -> Set<usize> {
    let t = trim_spec(p);
    if find_from(t, 0, '-') is Some {
        let ps = crate::text::split_sep_from(t, 0, '-');
        if ps.len() == 2 {
            match (parse_usize_spec(trim_spec(ps[0])), parse_usize_spec(trim_spec(ps[1]))) {
                (Some(a), Some(b)) => range_set(a, b),
                _ => Set::empty(),
            }
        } else {
            Set::empty()
        }
    } else {
        match parse_usize_spec(t) {
            Some(v) => Set::<usize>::empty().insert(v as usize),
            None => Set::empty(),
        }
    }
}

/// The union of the parts from index `i` on.
pub open spec fn parts_union(ps: Seq<Seq<char>>, i: int) -> Set<usize>
    decreases ps.len() - i when 0 <= i <= ps.len()
{
    if i >= ps.len() {
        Set::empty()
    } else {
        part_set(ps[i]).union(parts_union(ps, i + 1))
    }
}

/// The set of line numbers a whole annotation body names.
pub open spec fn ranges_spec(s: Seq<char>) -> Set<usize> {
    parts_union(crate::text::split_sep_from(s, 0, ','), 0)
}

fn insert_range(hs: &mut HashSet<usize>, a: usize, b: usize)
    ensures
        final(hs)@ == old(hs)@.union(range_set(a as int, b as int)),
{
    let mut x: usize = a;
    if a > b {
        proof {
            assert(old(hs)@.union(range_set(a as int, b as int)) =~= old(hs)@);
        }
        return ;
    }
    loop
        invariant
            a <= x <= b,
            hs@ == old(hs)@.union(range_set(a as int, x as int - 1)),
        decreases b - x,
    {
        hs.insert(x);
        proof {
            assert(hs@ =~= old(hs)@.union(range_set(a as int, x as int)));
        }
        if x == b {
            return ;
        }
        x += 1;
    }
}

fn add_part(hs: &mut HashSet<usize>, part: &Vec<char>)
    ensures
        final(hs)@ == old(hs)@.union(part_set(part@)),
{
    let t = trim_vec_md(part);
    if index_of_from(&t, 0, '-').is_some() {
        let pieces = crate::text::split_sep(&t, '-');
        if pieces.len() == 2 {
            proof {
                assert(pieces.deep_view()[0] =~= pieces@[0]@);
                assert(pieces.deep_view()[1] =~= pieces@[1]@);
            }
            let ta = trim_vec_md(&pieces[0]);
            let tb = trim_vec_md(&pieces[1]);
            match (parse_usize(&ta), parse_usize(&tb)) {
                (Some(a), Some(b)) => {
                    insert_range(hs, a, b);
                    proof {
                        assert(hs@ =~= old(hs)@.union(part_set(part@)));
                    }
                },
                _ => {
                    proof {
                        assert(hs@ =~= old(hs)@.union(part_set(part@)));
                    }
                },
            }
        } else {
            proof {
                assert(hs@ =~= old(hs)@.union(part_set(part@)));
            }
        }
    } else {
        match parse_usize(&t) {
            Some(v) => {
                hs.insert(v);
                proof {
                    assert(hs@ =~= old(hs)@.union(part_set(part@)));
                }
            },
            None => {
                proof {
                    assert(hs@ =~= old(hs)@.union(part_set(part@)));
                }
            },
        }
    }
}

fn trim_vec_md(s: &Vec<char>) -> (r: Vec<char>)
    ensures
        r@ == trim_spec(s@),
{
    crate::frontmatter::trim_vec_chars(s)
}

fn add_ranges(hs: &mut HashSet<usize>, content: &Vec<char>)
    ensures
        final(hs)@ == old(hs)@.union(ranges_spec(content@)),
{
    let parts = crate::text::split_sep(content, ',');
    let ghost pv = parts.deep_view();
    let n = parts.len();
    let mut i: usize = 0;
    while i < n
        invariant
            0 <= i <= n == parts@.len(),
            pv == parts.deep_view(),
            pv == crate::text::split_sep_from(content@, 0, ','),
            hs@ == old(hs)@.union(parts_prefix_union(pv, i as int)),
        decreases n - i,
    {
        proof {
            assert(pv[i as int] =~= parts@[i as int]@);
        }
        add_part(hs, &parts[i]);
        proof {
            lemma_parts_prefix_union_step(pv, i as int);
            assert(hs@ =~= old(hs)@.union(parts_prefix_union(pv, (i + 1) as int)));
        }
        i += 1;
    }
    proof {
        lemma_parts_prefix_is_union(pv, pv.len() as int);
        assert(hs@ =~= old(hs)@.union(ranges_spec(content@)));
    }
}

/// The union of the parts before index `i`.
pub open spec fn parts_prefix_union(ps: Seq<Seq<char>>, i: int) -> Set<usize>
    decreases i when 0 <= i <= ps.len()
{
    if i <= 0 {
        Set::empty()
    } else {
        parts_prefix_union(ps, i - 1).union(part_set(ps[i - 1]))
    }
}

proof fn lemma_parts_prefix_union_step(ps: Seq<Seq<char>>, i: int)
    requires
        0 <= i < ps.len(),
    ensures
        parts_prefix_union(ps, i + 1) == parts_prefix_union(ps, i).union(part_set(ps[i])),
{
}

proof fn lemma_parts_prefix_is_union(ps: Seq<Seq<char>>, i: int)
    requires
        0 <= i <= ps.len(),
    ensures
        parts_prefix_union(ps, i).union(parts_union(ps, i)) == parts_union(ps, 0),
    decreases i,
{
    if i == 0 {
        assert(parts_prefix_union(ps, 0).union(parts_union(ps, 0)) =~= parts_union(ps, 0));
    } else {
        lemma_parts_prefix_is_union(ps, i - 1);
        assert(parts_union(ps, i - 1) == part_set(ps[i - 1]).union(parts_union(ps, i)));
        assert(parts_prefix_union(ps, i).union(parts_union(ps, i)) =~= parts_prefix_union(
            ps,
            i - 1,
        ).union(parts_union(ps, i - 1)));
    }
}

/// The lazy search for an annotation group: the first position `j` at
/// which `pat` stands such that the first `}` after it leaves a
/// non-empty body; `k` is that closing brace.
pub open spec fn brace_find(s: Seq<char>, j: int, pat: Seq<char>) -> Option<(int, int)>
    decreases s.len() - j when 0 <= j <= s.len() && pat.len() >= 1
{
    if j + pat.len() > s.len() {
        None
    } else if at(s, j, pat) {
        match find_from(s, j + pat.len(), '}') {
            Some(k) => if k > j + pat.len() {
                Some((j, k))
            } else {
                brace_find(s, j + 1, pat)
            },
            None => brace_find(s, j + 1, pat),
        }
    } else {
        brace_find(s, j + 1, pat)
    }
}

pub proof fn lemma_brace_find(s: Seq<char>, j0: int, pat: Seq<char>)
    requires
        0 <= j0 <= s.len(),
        pat.len() >= 1,
    ensures
        match brace_find(s, j0, pat) {
            Some(jk) => j0 <= jk.0 && jk.0 + pat.len() < jk.1 < s.len() && s[jk.1] == '}',
            None => true,
        },
    decreases s.len() - j0,
{
    if j0 + pat.len() <= s.len() {
        if at(s, j0, pat) {
            lemma_find_from(s, j0 + pat.len(), '}');
        }
        lemma_brace_find(s, j0 + 1, pat);
    }
}

fn brace_find_exec(s: &Vec<char>, j0: usize, pat: &Vec<char>) -> (r: Option<(usize, usize)>)
    requires
        j0 <= s@.len(),
        pat@.len() >= 1,
    ensures
        match r {
            Some(jk) => brace_find(s@, j0 as int, pat@) == Some((jk.0 as int, jk.1 as int)) && j0
                <= jk.0 && jk.0 + pat@.len() < jk.1 < s@.len(),
            None => brace_find(s@, j0 as int, pat@) is None,
        },
{
    let n = s.len();
    let mut j: usize = j0;
    loop
        invariant
            j0 <= j,
            j <= n == s@.len(),
            pat@.len() >= 1,
            brace_find(s@, j0 as int, pat@) == brace_find(s@, j as int, pat@),
        decreases s@.len() - j,
    {
        if pat.len() > n - j {
            return None;
        }
        if match_at(s, j, pat) {
            proof {
                lemma_find_from(s@, j + pat@.len(), '}');
            }
            match index_of_from(s, j + pat.len(), '}') {
                Some(k) => {
                    if k > j + pat.len() {
                        return Some((j, k));
                    }
                },
                None => {},
            }
        }
        j += 1;
    }
}

/// The `del=` line set of an info string.
pub open spec fn del_set_spec(s: Seq<char>) -> Set<usize> {
    match brace_find(s, 0, "del={"@) {
        Some(jk) => ranges_spec(s.subrange(jk.0 + 5, jk.1)),
        None => Set::empty(),
    }
}

/// The `add=` line set of an info string.
pub open spec fn add_set_spec(s: Seq<char>) -> Set<usize> {
    match brace_find(s, 0, "add={"@) {
        Some(jk) => ranges_spec(s.subrange(jk.0 + 5, jk.1)),
        None => Set::empty(),
    }
}

/// The bare-brace highlight scan: every `{...}` group is visited left
/// to right, and the last one that does not belong to a `del=` or
/// `add=` annotation names the highlight set.
pub open spec fn h_scan(s: Seq<char>, i: int, cur: Set<usize>) -> Set<usize>
    decreases s.len() - i when 0 <= i <= s.len() via h_scan_decreases
{
    if i >= s.len() {
        cur
    } else if s[i] == '{' && brace_close(s, i) is Some {
        let k = brace_close(s, i)->Some_0;
        let bare = !(i >= 4 && (at(s, i - 4, "del="@) || at(s, i - 4, "add="@)));
        h_scan(
            s,
            k + 1,
            if bare {
                ranges_spec(s.subrange(i + 1, k))
            } else {
                cur
            },
        )
    } else {
        h_scan(s, i + 1, cur)
    }
}

/// The closing brace of a group opened at `i`, when its body is
/// non-empty.
pub open spec fn brace_close(s: Seq<char>, i: int) -> Option<int>
    recommends
        0 <= i < s.len(),
{
    match find_from(s, i + 1, '}') {
        Some(k) => if k > i + 1 {
            Some(k)
        } else {
            None
        },
        None => None,
    }
}

#[via_fn]
proof fn h_scan_decreases(s: Seq<char>, i: int, cur: Set<usize>) {
    if i < s.len() && s[i] == '{' {
        lemma_find_from(s, i + 1, '}');
    }
}

/// The bare highlight line set of an info string.
pub open spec fn h_set_spec(s: Seq<char>) -> Set<usize> {
    h_scan(s, 0, Set::empty())
}

/// Parses the `del={...}`, `add={...}` and bare `{...}` line
/// annotations of a fence info string into three sets of one-based
/// line numbers.
#[verifier::rlimit(60)]
pub fn parse_highlighting_info(info_string: &str) -> (r: (
    HashSet<usize>,
    HashSet<usize>,
    HashSet<usize>,
))
    ensures
        r.0@ == del_set_spec(info_string@),
        r.1@ == add_set_spec(info_string@),
        r.2@ == h_set_spec(info_string@),
{
    let s = str_chars(info_string);
    let del_pat = str_chars("del={");
    let add_pat = str_chars("add={");
    let del_eq = str_chars("del=");
    let add_eq = str_chars("add=");
    proof {
        reveal_strlit("del={");
        reveal_strlit("add={");
        reveal_strlit("del=");
        reveal_strlit("add=");
    }
    let mut del_lines: HashSet<usize> = HashSet::new();
    let mut add_lines: HashSet<usize> = HashSet::new();
    let mut h_lines: HashSet<usize> = HashSet::new();
    match brace_find_exec(&s, 0, &del_pat) {
        Some((j, k)) => {
            let content = copy_range(&s, j + 5, k);
            add_ranges(&mut del_lines, &content);
            proof {
                assert(del_lines@ =~= del_set_spec(info_string@));
            }
        },
        None => {
            proof {
                assert(del_lines@ =~= del_set_spec(info_string@));
            }
        },
    }
    match brace_find_exec(&s, 0, &add_pat) {
        Some((j, k)) => {
            let content = copy_range(&s, j + 5, k);
            add_ranges(&mut add_lines, &content);
            proof {
                assert(add_lines@ =~= add_set_spec(info_string@));
            }
        },
        None => {
            proof {
                assert(add_lines@ =~= add_set_spec(info_string@));
            }
        },
    }
    let n = s.len();
    let mut i: usize = 0;
    while i < n
        invariant
            0 <= i <= n == s@.len(),
            del_eq@ == "del="@,
            add_eq@ == "add="@,
            h_scan(s@, 0, Set::empty()) == h_scan(s@, i as int, h_lines@),
        decreases n - i,
    {
        proof {
            reveal_strlit("del=");
            reveal_strlit("add=");
        }
        let mut step: usize = 1;
        if s[i] == '{' {
            proof {
                lemma_find_from(s@, (i + 1) as int, '}');
            }
            match index_of_from(&s, i + 1, '}') {
                Some(k) => {
                    if k > i + 1 {
                        proof {
                            assert(brace_close(s@, i as int) == Some(k as int));
                        }
                        let bare: bool = !(i >= 4 && (match_at(&s, i - 4, &del_eq) || match_at(
                            &s,
                            i - 4,
                            &add_eq,
                        )));
                        if bare {
                            let content = copy_range(&s, i + 1, k);
                            let mut fresh: HashSet<usize> = HashSet::new();
                            add_ranges(&mut fresh, &content);
                            proof {
                                assert(fresh@ =~= ranges_spec(s@.subrange((i + 1) as int, k as int)));
                            }
                            h_lines = fresh;
                        }
                        proof {
                            assert(h_scan(s@, 0, Set::empty()) == h_scan(
                                s@,
                                (k + 1) as int,
                                h_lines@,
                            ));
                        }
                        i = k + 1;
                        continue ;
                    } else {
                        proof {
                            assert(brace_close(s@, i as int) is None);
                        }
                    }
                },
                None => {
                    proof {
                        assert(brace_close(s@, i as int) is None);
                    }
                },
            }
        }
        proof {
            assert(h_scan(s@, i as int, h_lines@) == h_scan(s@, (i + 1) as int, h_lines@));
        }
        i += 1;
    }
    proof {
        assert(h_lines@ == h_set_spec(info_string@));
    }
    (del_lines, add_lines, h_lines)
}

/// The minimal HTML entity for one character: the five characters
/// significant in HTML markup are escaped, everything else stands.
pub open spec fn escape_char_html(c: char) -> Seq<char> {
    if c == '"' {
        "&quot;"@
    } else if c == '&' {
        "&amp;"@
    } else if c == '\'' {
        "&#x27;"@
    } else if c == '<' {
        "&lt;"@
    } else if c == '>' {
        "&gt;"@
    } else {
        seq![c]
    }
}

/// The minimally entity-encoded form of a string.
pub open spec fn escape_html(s: Seq<char>) -> Seq<char>
    decreases s.len(),
{
    if s.len() == 0 {
        Seq::empty()
    } else {
        escape_html(s.drop_last()) + escape_char_html(s.last())
    }
}

/// Entity-encodes the characters HTML gives meaning to: `&`, `<`,
/// `>`, `"` and `\'`.
pub fn encode_minimal(v: &Vec<char>) -> (r: Vec<char>)
    ensures
        r@ == escape_html(v@),
{
    proof {
        reveal_strlit("&quot;");
        reveal_strlit("&amp;");
        reveal_strlit("&#x27;");
        reveal_strlit("&lt;");
        reveal_strlit("&gt;");
    }
    let quot = str_chars("&quot;");
    let amp = str_chars("&amp;");
    let apos = str_chars("&#x27;");
    let lt = str_chars("&lt;");
    let gt = str_chars("&gt;");
    let mut out: Vec<char> = Vec::new();
    let mut i: usize = 0;
    while i < v.len()
        invariant
            0 <= i <= v@.len(),
            quot@ == "&quot;"@,
            amp@ == "&amp;"@,
            apos@ == "&#x27;"@,
            lt@ == "&lt;"@,
            gt@ == "&gt;"@,
            out@ == escape_html(v@.subrange(0, i as int)),
        decreases v@.len() - i,
    {
        let c = v[i];
        if c == '"' {
            push_all(&mut out, &quot);
        } else if c == '&' {
            push_all(&mut out, &amp);
        } else if c == '\'' {
            push_all(&mut out, &apos);
        } else if c == '<' {
            push_all(&mut out, &lt);
        } else if c == '>' {
            push_all(&mut out, &gt);
        } else {
            out.push(c);
        }
        proof {
            assert(v@.subrange(0, (i + 1) as int).drop_last() =~= v@.subrange(0, i as int));
            assert(out@ =~= escape_html(v@.subrange(0, (i + 1) as int)));
        }
        i += 1;
    }
    proof {
        assert(v@.subrange(0, v@.len() as int) =~= v@);
    }
    out
}

/// The lines of `s` from position `i` on, split as `str::lines`
/// splits them: at every newline, a carriage return before it
/// removed, without a final empty line.
pub open spec fn lines_from(s: Seq<char>, i: int) -> Seq<Seq<char>>
    decreases s.len() - i when 0 <= i <= s.len() via lines_from_decreases
{
    if i >= s.len() {
        Seq::empty()
    } else {
        match find_from(s, i, '\n') {
            Some(k) => seq![strip_cr(s.subrange(i, k))] + lines_from(s, k + 1),
            None => seq![s.subrange(i, s.len() as int)],
        }
    }
}

/// A line with one trailing carriage return removed.
pub open spec fn strip_cr(l: Seq<char>) -> Seq<char> {
    if l.len() > 0 && l.last() == '\r' {
        l.drop_last()
    } else {
        l
    }
}

#[via_fn]
proof fn lines_from_decreases(s: Seq<char>, i: int) {
    lemma_find_from(s, i, '\n');
}

/// The lines of a string.
pub open spec fn lines_spec(s: Seq<char>) -> Seq<Seq<char>> {
    lines_from(s, 0)
}

/// Splits a string into its lines, as `str::lines` does.
pub fn split_lines(v: &Vec<char>) -> (r: Vec<Vec<char>>)
    ensures
        r.deep_view() == lines_spec(v@),
{
    let n = v.len();
    let mut r: Vec<Vec<char>> = Vec::new();
    let mut i: usize = 0;
    loop
        invariant
            0 <= i <= n == v@.len(),
            lines_from(v@, 0) == r.deep_view() + lines_from(v@, i as int),
        decreases n - i,
    {
        if i >= n {
            proof {
                assert(lines_from(v@, i as int) =~= Seq::<Seq<char>>::empty());
                assert(r.deep_view() =~= lines_from(v@, 0));
            }
            return r;
        }
        proof {
            lemma_find_from(v@, i as int, '\n');
        }
        match index_of_from(v, i, '\n') {
            Some(k) => {
                let raw = copy_range(v, i, k);
                let line: Vec<char> = if raw.len() > 0 && raw[raw.len() - 1] == '\r' {
                    proof {
                        assert(v@.subrange(i as int, k as int).drop_last() =~= v@.subrange(
                            i as int,
                            k - 1,
                        ));
                    }
                    copy_range(&raw, 0, raw.len() - 1)
                } else {
                    raw
                };
                proof {
                    assert(line@ == strip_cr(v@.subrange(i as int, k as int)));
                }
                let ghost prev = r.deep_view();
                r.push(line);
                proof {
                    assert(r.deep_view() =~~= prev.push(line@));
                    assert(lines_from(v@, 0) =~= r.deep_view() + lines_from(v@, (k + 1) as int));
                }
                i = k + 1;
            },
            None => {
                let line = copy_range(v, i, n);
                let ghost prev = r.deep_view();
                r.push(line);
                proof {
                    assert(r.deep_view() =~~= prev.push(line@));
                    assert(lines_from(v@, i as int) =~= seq![line@]);
                    assert(r.deep_view() =~= lines_from(v@, 0));
                }
                return r;
            },
        }
    }
}

/// One slug character: spaces become hyphens, alphanumerics and
/// hyphens stay, everything else is dropped.
pub open spec fn slug_map_char(c: char) -> Seq<char> {
    if c == ' ' {
        seq!['-']
    } else if alphanumeric(c) || c == '-' {
        seq![c]
    } else {
        Seq::empty()
    }
}

/// The slug characters of an already lower-cased text.
pub open spec fn slug_chars(s: Seq<char>) -> Seq<char>
    decreases s.len(),
{
    if s.len() == 0 {
        Seq::empty()
    } else {
        slug_chars(s.drop_last()) + slug_map_char(s.last())
    }
}

/// The anchor slug of a heading title: trimmed, lower-cased, spaces
/// hyphenated, and everything but alphanumerics and hyphens removed.
pub open spec fn slug_of(title: Seq<char>) -> Seq<char> {
    slug_chars(lower_of(trim_spec(title)))
}

/// Derives the anchor slug of a heading title.
pub fn slugify(title: &str) -> (r: String)
    ensures
        r@ == slug_of(title@),
{
    let tv = str_chars(title);
    let trimmed = trim_vec_md(&tv);
    let lowered = lowercase(chars_string(&trimmed).as_str());
    let lv = str_chars(lowered.as_str());
    let mut out: Vec<char> = Vec::new();
    let mut i: usize = 0;
    while i < lv.len()
        invariant
            0 <= i <= lv@.len(),
            lv@ == lower_of(trim_spec(title@)),
            out@ == slug_chars(lv@.subrange(0, i as int)),
        decreases lv@.len() - i,
    {
        let c = lv[i];
        if c == ' ' {
            out.push('-');
        } else if char_alphanumeric(c) || c == '-' {
            out.push(c);
        }
        proof {
            assert(lv@.subrange(0, (i + 1) as int).drop_last() =~= lv@.subrange(0, i as int));
            assert(out@ =~= slug_chars(lv@.subrange(0, (i + 1) as int)));
        }
        i += 1;
    }
    proof {
        assert(lv@.subrange(0, lv@.len() as int) =~= lv@);
    }
    chars_string(&out)
}

/// A line number zero-padded on the left to `width` digits.
pub open spec fn padded_dec(n: int, width: int) -> Seq<char> {
    let d = crate::utils::dec_of(n);
    if d.len() >= width {
        d
    } else {
        zeros(width - d.len()) + d
    }
}

/// A run of `k` zero characters.
pub open spec fn zeros(k: int) -> Seq<char>
    decreases k,
{
    if k <= 0 {
        Seq::empty()
    } else {
        zeros(k - 1).push('0')
    }
}

fn push_padded_dec(out: &mut Vec<char>, n: usize, width: usize)
    ensures
        final(out)@ == old(out)@ + padded_dec(n as int, width as int),
{
    let d = crate::utils::dec_chars(n);
    if d.len() >= width {
        push_all(out, &d);
    } else {
        let mut k: usize = width - d.len();
        let ghost total: int = k as int;
        while k > 0
            invariant
                0 <= k <= total,
                out@ == old(out)@ + zeros(total - k),
            decreases k,
        {
            out.push('0');
            proof {
                assert(zeros(total - (k - 1)) =~= zeros(total - k).push('0'));
                assert(out@ =~= old(out)@ + zeros(total - (k - 1)));
            }
            k -= 1;
        }
        push_all(out, &d);
        proof {
            assert(out@ =~= old(out)@ + padded_dec(n as int, width as int));
        }
    }
}

/// The class attribute of one code line: deletions win over
/// additions, which win over plain highlights.
pub open spec fn line_class_of(n: int, del: Set<usize>, add: Set<usize>, high: Set<usize>) -> Seq<
    char,
> {
    if 0 <= n <= usize::MAX as int && del.contains(n as usize) {
        " class=\"highlight-del\""@
    } else if 0 <= n <= usize::MAX as int && add.contains(n as usize) {
        " class=\"highlight-add\""@
    } else if 0 <= n <= usize::MAX as int && high.contains(n as usize) {
        " class=\"highlight\""@
    } else {
        Seq::empty()
    }
}

/// One rendered code line: its class, its padded number, and the line
/// itself.
pub open spec fn line_html_of(
    line: Seq<char>,
    n: int,
    width: int,
    del: Set<usize>,
    add: Set<usize>,
    high: Set<usize>,
) -> Seq<char> {
    "<span"@ + line_class_of(n, del, add, high) + "><span class=\"line-number\">"@ + padded_dec(
        n,
        width,
    ) + "</span><span class=\"code-line\">"@ + line + "</span></span>"@
}

/// The rendered code lines joined with newlines.
pub open spec fn numbered_lines_of(
    lines: Seq<Seq<char>>,
    upto: int,
    width: int,
    del: Set<usize>,
    add: Set<usize>,
    high: Set<usize>,
) -> Seq<char>
    decreases upto when 0 <= upto <= lines.len()
{
    if upto <= 0 {
        Seq::empty()
    } else if upto == 1 {
        line_html_of(lines[0], 1, width, del, add, high)
    } else {
        numbered_lines_of(lines, upto - 1, width, del, add, high) + seq!['\n'] + line_html_of(
            lines[upto - 1],
            upto,
            width,
            del,
            add,
            high,
        )
    }
}

/// The fully assembled, numbered and annotated body of a code block.
pub open spec fn numbered_body_of(
    html: Seq<char>,
    del: Set<usize>,
    add: Set<usize>,
    high: Set<usize>,
) -> Seq<char> {
    let lines = lines_spec(html);
    let width = if lines.len() > 0 {
        crate::utils::dec_of(lines.len() as int).len() as int
    } else {
        1
    };
    numbered_lines_of(lines, lines.len() as int, width, del, add, high)
}

/// Numbers the lines of highlighted code and applies the annotation
/// classes, deletions before additions before highlights.
#[verifier::rlimit(60)]
pub fn number_code_lines(
    html: &Vec<char>,
    del: &HashSet<usize>,
    add: &HashSet<usize>,
    high: &HashSet<usize>,
) -> (r: Vec<char>)
    ensures
        r@ == numbered_body_of(html@, del@, add@, high@),
{
    proof {
        reveal_strlit(" class=\"highlight-del\"");
        reveal_strlit(" class=\"highlight-add\"");
        reveal_strlit(" class=\"highlight\"");
        reveal_strlit("<span");
        reveal_strlit("><span class=\"line-number\">");
        reveal_strlit("</span><span class=\"code-line\">");
        reveal_strlit("</span></span>");
    }
    let cls_del = str_chars(" class=\"highlight-del\"");
    let cls_add = str_chars(" class=\"highlight-add\"");
    let cls_high = str_chars(" class=\"highlight\"");
    let open_span = str_chars("<span");
    let mid1 = str_chars("><span class=\"line-number\">");
    let mid2 = str_chars("</span><span class=\"code-line\">");
    let close_span = str_chars("</span></span>");
    let lines = split_lines(html);
    let total = lines.len();
    let width: usize = if total > 0 {
        crate::utils::dec_chars(total).len()
    } else {
        1
    };
    proof {
        assert(width as int == if lines.deep_view().len() > 0 {
            crate::utils::dec_of(lines.deep_view().len() as int).len() as int
        } else {
            1int
        });
    }
    let mut out: Vec<char> = Vec::new();
    let mut i: usize = 0;
    while i < total
        invariant
            0 <= i <= total == lines@.len(),
            lines.deep_view() == lines_spec(html@),
            cls_del@ == " class=\"highlight-del\""@,
            cls_add@ == " class=\"highlight-add\""@,
            cls_high@ == " class=\"highlight\""@,
            open_span@ == "<span"@,
            mid1@ == "><span class=\"line-number\">"@,
            mid2@ == "</span><span class=\"code-line\">"@,
            close_span@ == "</span></span>"@,
            width as int == if lines.deep_view().len() > 0 {
                crate::utils::dec_of(lines.deep_view().len() as int).len() as int
            } else {
                1int
            },
            out@ == numbered_lines_of(
                lines.deep_view(),
                i as int,
                width as int,
                del@,
                add@,
                high@,
            ),
        decreases total - i,
    {
        let line_num = i + 1;
        if i > 0 {
            out.push('\n');
        }
        push_all(&mut out, &open_span);
        if del.contains(&line_num) {
            push_all(&mut out, &cls_del);
        } else if add.contains(&line_num) {
            push_all(&mut out, &cls_add);
        } else if high.contains(&line_num) {
            push_all(&mut out, &cls_high);
        }
        push_all(&mut out, &mid1);
        push_padded_dec(&mut out, line_num, width);
        push_all(&mut out, &mid2);
        push_all(&mut out, &lines[i]);
        push_all(&mut out, &close_span);
        proof {
            assert(lines.deep_view()[i as int] =~= lines@[i as int]@);
            assert(out@ =~= numbered_lines_of(
                lines.deep_view(),
                (i + 1) as int,
                width as int,
                del@,
                add@,
                high@,
            ));
        }
        i += 1;
    }
    out
}

/// An anchored heading element: the level, the slug id, and the inner
/// HTML.
pub open spec fn heading_html_spec(level: int, slug: Seq<char>, inner: Seq<char>) -> Seq<char> {
    "<h"@ + crate::utils::dec_of(level) + " id=\""@ + slug + "\">"@ + inner + "</h"@
        + crate::utils::dec_of(level) + ">"@
}

fn heading_fragment(level: u32, slug: &Vec<char>, inner: &Vec<char>) -> (r: Vec<char>)
    ensures
        r@ == heading_html_spec(level as int, slug@, inner@),
{
    proof {
        reveal_strlit("<h");
        reveal_strlit(" id=\"");
        reveal_strlit("\">");
        reveal_strlit("</h");
        reveal_strlit(">");
    }
    let open_h = str_chars("<h");
    let id_attr = str_chars(" id=\"");
    let close_attr = str_chars("\">");
    let close_open = str_chars("</h");
    let gt = str_chars(">");
    let mut out: Vec<char> = Vec::new();
    push_all(&mut out, &open_h);
    crate::utils::push_dec(&mut out, level as usize);
    push_all(&mut out, &id_attr);
    push_all(&mut out, slug);
    push_all(&mut out, &close_attr);
    push_all(&mut out, inner);
    push_all(&mut out, &close_open);
    crate::utils::push_dec(&mut out, level as usize);
    push_all(&mut out, &gt);
    proof {
        assert(out@ =~= heading_html_spec(level as int, slug@, inner@));
    }
    out
}

/// A complete code-block element: an optional filename header, the
/// displayed language tag, and the numbered body.
pub open spec fn code_block_html_spec(
    filename: Option<Seq<char>>,
    lang: Seq<char>,
    body: Seq<char>,
) -> Seq<char> {
    match filename {
        Some(f) =>
            "<div class=\"code-block\"><div class=\"code-header\"><span class=\"code-filename\">"@
            + f + "</span>  <div><span class=\"code-language\">"@ + lang
            + "</span> <button class=\"copy-button\" onclick=\"copyCode(this)\">copy</button></div></div><pre><code>"@
            + body + "</code></pre></div>"@,
        None => "<div class=\"code-block\"><div class=\"code-header\"> <div><span class=\"code-language\">"@
            + lang
            + "</span><button class=\"copy-button\" onclick=\"copyCode(this)\">copy</button> </div></div><pre><code>"@
            + body + "</code></pre></div>"@,
    }
}

#[verifier::rlimit(30)]
fn code_block_fragment(filename: &Option<Vec<char>>, lang: &Vec<char>, body: &Vec<char>) -> (r: Vec<
    char,
>)
    ensures
        r@ == code_block_html_spec(
            match filename {
                Some(f) => Some(f@),
                None => None,
            },
            lang@,
            body@,
        ),
{
    proof {
        reveal_strlit(
            "<div class=\"code-block\"><div class=\"code-header\"><span class=\"code-filename\">",
        );
        reveal_strlit("</span>  <div><span class=\"code-language\">");
        reveal_strlit(
            "</span> <button class=\"copy-button\" onclick=\"copyCode(this)\">copy</button></div></div><pre><code>",
        );
        reveal_strlit(
            "<div class=\"code-block\"><div class=\"code-header\"> <div><span class=\"code-language\">",
        );
        reveal_strlit(
            "</span><button class=\"copy-button\" onclick=\"copyCode(this)\">copy</button> </div></div><pre><code>",
        );
        reveal_strlit("</code></pre></div>");
    }
    let mut out: Vec<char> = Vec::new();
    match filename {
        Some(f) => {
            let head = str_chars(
                "<div class=\"code-block\"><div class=\"code-header\"><span class=\"code-filename\">",
            );
            let mid_a = str_chars("</span>  <div><span class=\"code-language\">");
            let mid_b = str_chars(
                "</span> <button class=\"copy-button\" onclick=\"copyCode(this)\">copy</button></div></div><pre><code>",
            );
            let tail = str_chars("</code></pre></div>");
            push_all(&mut out, &head);
            push_all(&mut out, f);
            push_all(&mut out, &mid_a);
            push_all(&mut out, lang);
            push_all(&mut out, &mid_b);
            push_all(&mut out, body);
            push_all(&mut out, &tail);
            proof {
                assert(out@ =~= code_block_html_spec(Some(f@), lang@, body@));
            }
        },
        None => {
            let head = str_chars(
                "<div class=\"code-block\"><div class=\"code-header\"> <div><span class=\"code-language\">",
            );
            let mid = str_chars(
                "</span><button class=\"copy-button\" onclick=\"copyCode(this)\">copy</button> </div></div><pre><code>",
            );
            let tail = str_chars("</code></pre></div>");
            push_all(&mut out, &head);
            push_all(&mut out, lang);
            push_all(&mut out, &mid);
            push_all(&mut out, body);
            push_all(&mut out, &tail);
            proof {
                assert(out@ =~= code_block_html_spec(None, lang@, body@));
            }
        },
    }
    out
}

/// The table of contents produced from position `i` of the classified
/// event stream, given whether a code block is open and the level and
/// text of an open heading: one entry per closed heading, with its
/// accumulated text and derived slug, in document order.
pub open spec fn toc_from(
    ks: Seq<EventKind>,
    i: int,
    in_code: bool,
    heading: Option<(u32, Seq<char>)>,
) -> Seq<(u32, Seq<char>, Seq<char>)>
    decreases ks.len() - i when 0 <= i <= ks.len()
{
    if i >= ks.len() {
        Seq::empty()
    } else {
        match ks[i] {
            EventKind::HeadingStart(l) => toc_from(ks, i + 1, in_code, Some((l, Seq::empty()))),
            EventKind::CodeStart(info) => toc_from(ks, i + 1, true, heading),
            EventKind::Text(t) => if in_code {
                toc_from(ks, i + 1, in_code, heading)
            } else {
                match heading {
                    Some(lt) => toc_from(ks, i + 1, in_code, Some((lt.0, lt.1 + t@))),
                    None => toc_from(ks, i + 1, in_code, heading),
                }
            },
            EventKind::CodeEnd => if in_code {
                toc_from(ks, i + 1, false, heading)
            } else {
                toc_from(ks, i + 1, in_code, heading)
            },
            EventKind::HeadingEnd => match heading {
                Some(lt) => seq![(lt.0, lt.1, slug_of(lt.1))] + toc_from(ks, i + 1, in_code, None),
                None => toc_from(ks, i + 1, in_code, heading),
            },
            EventKind::Other => toc_from(ks, i + 1, in_code, heading),
        }
    }
}

/// The table of contents of a whole classified event stream.
pub open spec fn toc_of(ks: Seq<EventKind>) -> Seq<(u32, Seq<char>, Seq<char>)> {
    toc_from(ks, 0, false, None)
}

/// Replays the classified event stream: headings are buffered and
/// re-emitted as anchored elements while the table of contents grows,
/// fenced code is gathered and re-emitted as a numbered, annotated,
/// highlighted block, and every other event passes through.
#[verifier::rlimit(100)]
pub fn assemble_document(events: Vec<pulldown_cmark::Event>, kinds: Vec<EventKind>) -> (r: (
    Vec<pulldown_cmark::Event>,
    Vec<TOCEntry>,
))
    requires
        events@.len() == kinds@.len(),
    ensures
        r.1@.map_values(|e: TOCEntry| e@) == toc_of(kinds@),
{
    let ghost ks = kinds@;
    let ghost n = ks.len();
    let mut events = events;
    let mut kinds = kinds;
    let mut out: Vec<pulldown_cmark::Event> = Vec::new();
    let mut toc: Vec<TOCEntry> = Vec::new();
    let mut in_code = false;
    let mut code: Vec<char> = Vec::new();
    let mut cur_lang: Option<String> = None;
    let mut cur_filename: Option<String> = None;
    let mut del_lines: HashSet<usize> = HashSet::new();
    let mut add_lines: HashSet<usize> = HashSet::new();
    let mut h_lines: HashSet<usize> = HashSet::new();
    let mut heading_active = false;
    let mut heading_level: u32 = 0;
    let mut heading_buf: Vec<pulldown_cmark::Event> = Vec::new();
    let mut heading_text: Vec<char> = Vec::new();
    let ghost mut i: int = 0;
    proof {
        assert(ks.subrange(0, n as int) =~= ks);
    }
    while kinds.len() > 0
        invariant
            events@.len() == kinds@.len(),
            0 <= i <= n == ks.len(),
            kinds@ == ks.subrange(i, n as int),
            toc@.map_values(|e: TOCEntry| e@) + toc_from(
                ks,
                i,
                in_code,
                if heading_active {
                    Some((heading_level, heading_text@))
                } else {
                    None
                },
            ) == toc_of(ks),
        decreases kinds@.len(),
    {
        let ghost suffix = ks.subrange(i, n as int);
        proof {
            assert(suffix[0] == ks[i]);
            assert(suffix.drop_first() =~= ks.subrange(i + 1, n as int));
        }
        let e = events.remove(0);
        let k = kinds.remove(0);
        proof {
            assert(kinds@ =~= ks.subrange(i + 1, n as int));
            assert(k == ks[i]);
        }
        let ghost heading_before: Option<(u32, Seq<char>)> = if heading_active {
            Some((heading_level, heading_text@))
        } else {
            None
        };
        match k {
            EventKind::HeadingStart(l) => {
                heading_active = true;
                heading_level = l;
                heading_buf = Vec::new();
                heading_text = Vec::new();
                proof {
                    assert(toc_from(ks, i, in_code, heading_before) == toc_from(
                        ks,
                        i + 1,
                        in_code,
                        Some((l, Seq::<char>::empty())),
                    ));
                    assert(heading_text@ =~= Seq::<char>::empty());
                }
            },
            EventKind::CodeStart(info) => {
                in_code = true;
                let lf = extract_language_and_filename(info.as_str());
                cur_lang = lf.0;
                cur_filename = lf.1;
                let sets = parse_highlighting_info(info.as_str());
                del_lines = sets.0;
                add_lines = sets.1;
                h_lines = sets.2;
                code = Vec::new();
                proof {
                    assert(toc_from(ks, i, in_code, heading_before) == toc_from(
                        ks,
                        i + 1,
                        true,
                        heading_before,
                    ));
                }
            },
            EventKind::Text(t) => {
                if in_code {
                    let tv = str_chars(t.as_str());
                    push_all(&mut code, &tv);
                } else if heading_active {
                    heading_buf.push(e);
                    let tv = str_chars(t.as_str());
                    push_all(&mut heading_text, &tv);
                    proof {
                        assert(toc_from(ks, i, in_code, heading_before) == toc_from(
                            ks,
                            i + 1,
                            in_code,
                            Some((heading_level, heading_text@)),
                        ));
                    }
                } else {
                    out.push(e);
                }
            },
            EventKind::CodeEnd => {
                if in_code {
                    in_code = false;
                    let escaped = encode_minimal(&code);
                    let highlighted: Vec<char> = match &cur_lang {
                        Some(tag) => match language_token(tag.as_str()) {
                            Some(tok) => {
                                let code_s = chars_string(&code);
                                match highlight_code(tok.as_str(), code_s.as_str()) {
                                    Some(h) => str_chars(h.as_str()),
                                    None => escaped,
                                }
                            },
                            None => escaped,
                        },
                        None => escaped,
                    };
                    let body = number_code_lines(
                        &highlighted,
                        &del_lines,
                        &add_lines,
                        &h_lines,
                    );
                    let lang_display: Vec<char> = match &cur_lang {
                        Some(l) => str_chars(l.as_str()),
                        None => Vec::new(),
                    };
                    let fname_chars: Option<Vec<char>> = match &cur_filename {
                        Some(f) => Some(str_chars(f.as_str())),
                        None => None,
                    };
                    let html = code_block_fragment(&fname_chars, &lang_display, &body);
                    out.push(html_event(chars_string(&html)));
                    cur_lang = None;
                    cur_filename = None;
                    del_lines = HashSet::new();
                    add_lines = HashSet::new();
                    h_lines = HashSet::new();
                } else if heading_active {
                    heading_buf.push(e);
                } else {
                    out.push(e);
                }
            },
            EventKind::HeadingEnd => {
                if heading_active {
                    heading_active = false;
                    let buf = heading_buf;
                    heading_buf = Vec::new();
                    let inner_html = events_to_html(buf);
                    let title = chars_string(&heading_text);
                    let slug = slugify(title.as_str());
                    let ghost prev_toc = toc@.map_values(|e: TOCEntry| e@);
                    toc.push(
                        TOCEntry { level: heading_level, title: title, id: slug.clone() },
                    );
                    let slug_v = str_chars(slug.as_str());
                    let inner_v = str_chars(inner_html.as_str());
                    let hh = heading_fragment(heading_level, &slug_v, &inner_v);
                    out.push(html_event(chars_string(&hh)));
                    proof {
                        assert(toc@.map_values(|e: TOCEntry| e@) =~= prev_toc.push(
                            (heading_level, heading_text@, slug_of(heading_text@)),
                        ));
                        assert(toc_from(ks, i, in_code, heading_before) == seq![
                            (heading_level, heading_text@, slug_of(heading_text@)),
                        ] + toc_from(ks, i + 1, in_code, None));
                        assert(toc@.map_values(|e: TOCEntry| e@) + toc_from(
                            ks,
                            i + 1,
                            in_code,
                            None,
                        ) =~= toc_of(ks));
                    }
                }
            },
            EventKind::Other => {
                if in_code {
                } else if heading_active {
                    heading_buf.push(e);
                } else {
                    out.push(e);
                }
            },
        }
        proof {
            i = i + 1;
        }
    }
    proof {
        assert(toc_from(
            ks,
            n as int,
            in_code,
            if heading_active {
                Some((heading_level, heading_text@))
            } else {
                None
            },
        ) =~= Seq::<(u32, Seq<char>, Seq<char>)>::empty());
        assert(toc@.map_values(|e: TOCEntry| e@) =~= toc_of(ks));
    }
    (out, toc)
}

/// Renders a document body: rewrites its references, parses it with
/// the extensions enabled, intercepts headings and fenced code, and
/// hands back the final HTML together with the table of contents. The
/// table of contents is exactly the one the classified event stream
/// of the fully rewritten body determines; the HTML string passes
/// through the opaque event serializer and carries no contract.
pub fn markdown_to_html(markdown: &str, file_path: &str, index: &crate::paths::FileIndex) -> (r: (
    String,
    Vec<TOCEntry>,
))
    ensures
        r.1@.map_values(|e: TOCEntry| e@) == toc_of(
            kinds_of(
                crate::rewrite::rewrite_wiki_spec(
                    crate::rewrite::process_paths_spec(markdown@, file_path@, index@),
                ),
            ),
        ),
{
    let rewritten = crate::rewrite::process_paths(markdown, file_path, index);
    let processed = crate::rewrite::process_wiki_parenthetical_links(rewritten.as_str());
    let parsed = parse_markdown(processed.as_str());
    let assembled = assemble_document(parsed.0, parsed.1);
    let html = events_to_html(assembled.0);
    (html, assembled.1)
}

/// The event positions at which the table-of-contents entries close:
/// the same walk as [`toc_from`], recording where each heading ends.
pub open spec fn toc_close_positions(
    ks: Seq<EventKind>,
    i: int,
    in_code: bool,
    heading: Option<(u32, Seq<char>)>,
) -> Seq<int>
    decreases ks.len() - i when 0 <= i <= ks.len()
{
    if i >= ks.len() {
        Seq::empty()
    } else {
        match ks[i] {
            EventKind::HeadingStart(l) => toc_close_positions(
                ks,
                i + 1,
                in_code,
                Some((l, Seq::empty())),
            ),
            EventKind::CodeStart(info) => toc_close_positions(ks, i + 1, true, heading),
            EventKind::Text(t) => if in_code {
                toc_close_positions(ks, i + 1, in_code, heading)
            } else {
                match heading {
                    Some(lt) => toc_close_positions(ks, i + 1, in_code, Some((lt.0, lt.1 + t@))),
                    None => toc_close_positions(ks, i + 1, in_code, heading),
                }
            },
            EventKind::CodeEnd => if in_code {
                toc_close_positions(ks, i + 1, false, heading)
            } else {
                toc_close_positions(ks, i + 1, in_code, heading)
            },
            EventKind::HeadingEnd => match heading {
                Some(lt) => seq![i] + toc_close_positions(ks, i + 1, in_code, None),
                None => toc_close_positions(ks, i + 1, in_code, heading),
            },
            EventKind::Other => toc_close_positions(ks, i + 1, in_code, heading),
        }
    }
}

proof fn lemma_toc_positions_shape(
    ks: Seq<EventKind>,
    i: int,
    in_code: bool,
    heading: Option<(u32, Seq<char>)>,
)
    requires
        0 <= i <= ks.len(),
    ensures
        toc_close_positions(ks, i, in_code, heading).len() == toc_from(
            ks,
            i,
            in_code,
            heading,
        ).len(),
        forall|a: int|
            0 <= a < toc_close_positions(ks, i, in_code, heading).len() ==> i
                <= #[trigger] toc_close_positions(ks, i, in_code, heading)[a] < ks.len(),
        forall|a: int, b: int|
            0 <= a < b < toc_close_positions(ks, i, in_code, heading).len()
                ==> #[trigger] toc_close_positions(ks, i, in_code, heading)[a]
                < #[trigger] toc_close_positions(ks, i, in_code, heading)[b],
    decreases ks.len() - i,
{
    if i < ks.len() {
        match ks[i] {
            EventKind::HeadingStart(l) => {
                lemma_toc_positions_shape(ks, i + 1, in_code, Some((l, Seq::empty())));
            },
            EventKind::CodeStart(info) => {
                lemma_toc_positions_shape(ks, i + 1, true, heading);
            },
            EventKind::Text(t) => {
                if in_code {
                    lemma_toc_positions_shape(ks, i + 1, in_code, heading);
                } else {
                    match heading {
                        Some(lt) => {
                            lemma_toc_positions_shape(
                                ks,
                                i + 1,
                                in_code,
                                Some((lt.0, lt.1 + t@)),
                            );
                        },
                        None => {
                            lemma_toc_positions_shape(ks, i + 1, in_code, heading);
                        },
                    }
                }
            },
            EventKind::CodeEnd => {
                if in_code {
                    lemma_toc_positions_shape(ks, i + 1, false, heading);
                } else {
                    lemma_toc_positions_shape(ks, i + 1, in_code, heading);
                }
            },
            EventKind::HeadingEnd => {
                match heading {
                    Some(lt) => {
                        lemma_toc_positions_shape(ks, i + 1, in_code, None);
                    },
                    None => {
                        lemma_toc_positions_shape(ks, i + 1, in_code, heading);
                    },
                }
            },
            EventKind::Other => {
                lemma_toc_positions_shape(ks, i + 1, in_code, heading);
            },
        }
    }
}

/// Table-of-contents ordering: each entry corresponds to one heading
/// close in the event stream, and those closes stand in strictly
/// increasing document order, whatever the heading levels are.
pub proof fn lemma_toc_document_order(ks: Seq<EventKind>)
    ensures
        toc_close_positions(ks, 0, false, None).len() == toc_of(ks).len(),
        forall|a: int, b: int|
            0 <= a < b < toc_of(ks).len() ==> #[trigger] toc_close_positions(
                ks,
                0,
                false,
                None,
            )[a] < #[trigger] toc_close_positions(ks, 0, false, None)[b],
{
    lemma_toc_positions_shape(ks, 0, false, None);
}

} // verus!
