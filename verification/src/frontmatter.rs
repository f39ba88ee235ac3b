//! Frontmatter extraction: the dash-delimited metadata block that every
//! document must open with, parsed into key/value entries, with `title`
//! and `date` required string fields.

use vstd::prelude::*;

use crate::text::{at, chars_string, copy_range, str_chars};

verus! {

/// Whether a character is Unicode whitespace, as `char::is_whitespace`
/// decides it.
pub uninterp spec fn is_unicode_space(c: char) -> bool;

/// Relies on `char::is_whitespace`: the Unicode white-space property of
/// the character.
#[verifier::external_body]
pub(crate) fn char_is_space(c: char) -> (r: bool)
    ensures
        r == is_unicode_space(c),
{
    c.is_whitespace()
}

/// The entries of the top-level YAML mapping that `s` parses to: each
/// key and each value as a string when it is one; nothing when `s` is
/// not valid YAML or not a mapping.
pub uninterp spec fn yaml_entries_of(s: Seq<char>) -> Option<
    Seq<(Option<Seq<char>>, Option<Seq<char>>)>,
>;

/// Relies on `serde_yaml::from_str::<Value>` and `Value::as_str`:
/// parses the block as YAML and hands back the top-level mapping's
/// entries, each key and value as a string where it is one.
#[verifier::external_body]
fn parse_yaml_entries(s: &str) -> (r: Option<Vec<(Option<String>, Option<String>)>>)
    ensures
        r.deep_view() == yaml_entries_of(s@),
{
    let v: serde_yaml::Value = serde_yaml::from_str(s).ok()?;
    let m = v.as_mapping()?;
    Some(
        m.iter().map(
            |(k, val): (&serde_yaml::Value, &serde_yaml::Value)|
                (
                    k.as_str().map(|x: &str| x.to_string()),
                    val.as_str().map(|x: &str| x.to_string()),
                ),
        ).collect(),
    )
}

/// `s` with leading whitespace removed.
pub open spec fn trim_start_spec(s: Seq<char>) -> Seq<char>
    decreases s.len(),
{
    if s.len() > 0 && is_unicode_space(s[0]) {
        trim_start_spec(s.drop_first())
    } else {
        s
    }
}

/// `s` with trailing whitespace removed.
pub open spec fn trim_end_spec(s: Seq<char>) -> Seq<char>
    decreases s.len(),
{
    if s.len() > 0 && is_unicode_space(s.last()) {
        trim_end_spec(s.drop_last())
    } else {
        s
    }
}

/// `s` with leading and trailing whitespace removed.
pub open spec fn trim_spec(s: Seq<char>) -> Seq<char> {
    trim_end_spec(trim_start_spec(s))
}

pub(crate) fn trim_vec_chars(s: &Vec<char>) -> (r: Vec<char>)
    ensures
        r@ == trim_spec(s@),
{
    let mut a: usize = 0;
    proof {
        assert(s@.subrange(0, s@.len() as int) =~= s@);
    }
    while a < s.len() && char_is_space(s[a])
        invariant
            0 <= a <= s@.len(),
            trim_start_spec(s@) == trim_start_spec(s@.subrange(a as int, s@.len() as int)),
        decreases s@.len() - a,
    {
        proof {
            assert(s@.subrange(a as int, s@.len() as int).drop_first() =~= s@.subrange(
                (a + 1) as int,
                s@.len() as int,
            ));
        }
        a += 1;
    }
    let ghost st = trim_start_spec(s@);
    proof {
        if a < s@.len() {
            assert(st =~= s@.subrange(a as int, s@.len() as int));
        } else {
            assert(s@.subrange(a as int, s@.len() as int) =~= Seq::<char>::empty());
            assert(st =~= s@.subrange(a as int, s@.len() as int));
        }
    }
    let mut b: usize = s.len();
    while b > a && char_is_space(s[b - 1])
        invariant
            a <= b <= s@.len(),
            st == s@.subrange(a as int, s@.len() as int),
            trim_end_spec(st) == trim_end_spec(s@.subrange(a as int, b as int)),
        decreases b,
    {
        proof {
            assert(s@.subrange(a as int, b as int).drop_last() =~= s@.subrange(
                a as int,
                (b - 1) as int,
            ));
        }
        b -= 1;
    }
    proof {
        if b > a {
            assert(trim_end_spec(s@.subrange(a as int, b as int)) =~= s@.subrange(
                a as int,
                b as int,
            ));
        } else {
            assert(s@.subrange(a as int, b as int) =~= Seq::<char>::empty());
            assert(trim_end_spec(s@.subrange(a as int, b as int)) =~= s@.subrange(
                a as int,
                b as int,
            ));
        }
    }
    copy_range(s, a, b)
}

/// First position `k >= from` at which `pat` occurs in `s`, if any.
pub open spec fn find_pat(s: Seq<char>, from: int, pat: Seq<char>) -> Option<int>
    decreases s.len() - from when 0 <= from <= s.len() && pat.len() >= 1
{
    if from + pat.len() > s.len() {
        None
    } else if at(s, from, pat) {
        Some(from)
    } else {
        find_pat(s, from + 1, pat)
    }
}

pub proof fn lemma_find_pat(s: Seq<char>, from: int, pat: Seq<char>)
    requires
        0 <= from <= s.len(),
        pat.len() >= 1,
    ensures
        match find_pat(s, from, pat) {
            Some(k) => from <= k && k + pat.len() <= s.len() && at(s, k, pat),
            None => true,
        },
    decreases s.len() - from,
{
    if from + pat.len() <= s.len() && !at(s, from, pat) {
        lemma_find_pat(s, from + 1, pat);
    }
}

fn find_pat_exec(s: &Vec<char>, from: usize, pat: &Vec<char>) -> (r: Option<usize>)
    requires
        from <= s@.len(),
        pat@.len() >= 1,
    ensures
        match r {
            Some(k) => find_pat(s@, from as int, pat@) == Some(k as int) && from <= k && k
                + pat@.len() <= s@.len(),
            None => find_pat(s@, from as int, pat@) is None,
        },
{
    let n = s.len();
    let mut j: usize = from;
    loop
        invariant
            from <= j,
            j <= n == s@.len(),
            pat@.len() >= 1,
            find_pat(s@, from as int, pat@) == find_pat(s@, j as int, pat@),
        decreases s@.len() - j,
    {
        if pat.len() > n - j {
            return None;
        }
        if crate::text::match_at(s, j, pat) {
            return Some(j);
        }
        j += 1;
    }
}

/// Why a document's frontmatter was rejected.
#[derive(Clone, Copy, Debug, PartialEq, Eq, Structural)]
pub enum FrontmatterError {
    /// The document does not open with a `---` line.
    Missing,
    /// No closing `---` delimiter follows the opening one.
    EndDelimiterNotFound,
    /// The block is not a YAML mapping.
    Invalid,
    /// `title` or `date` is absent.
    MissingTitleOrDate,
    /// `title` or `date` is present but not a string.
    NonStringTitleOrDate,
}

impl FrontmatterError {
    /// The human-readable description of the rejection.
    pub fn message(&self) -> (r: String)
        ensures
            r@ == match *self {
                FrontmatterError::Missing => "Frontmatter is missing"@,
                FrontmatterError::EndDelimiterNotFound => "Frontmatter end delimiter not found"@,
                FrontmatterError::Invalid => "Invalid YAML in frontmatter"@,
                FrontmatterError::MissingTitleOrDate => "Missing title or date in frontmatter"@,
                FrontmatterError::NonStringTitleOrDate => "Title and date must be strings"@,
            },
    {
        match *self {
            FrontmatterError::Missing => "Frontmatter is missing".to_owned(),
            FrontmatterError::EndDelimiterNotFound => {
                "Frontmatter end delimiter not found".to_owned()
            },
            FrontmatterError::Invalid => "Invalid YAML in frontmatter".to_owned(),
            FrontmatterError::MissingTitleOrDate => {
                "Missing title or date in frontmatter".to_owned()
            },
            FrontmatterError::NonStringTitleOrDate => "Title and date must be strings".to_owned(),
        }
    }
}

/// The string value recorded for `key`: nothing when the key is
/// absent, `Some(None)` when its value is not a string.
pub open spec fn fm_lookup(
    es: Seq<(Option<Seq<char>>, Option<Seq<char>>)>,
    key: Seq<char>,
) -> Option<Option<Seq<char>>>
    decreases es.len(),
{
    if es.len() == 0 {
        None
    } else if es[0].0 == Some(key) {
        Some(es[0].1)
    } else {
        fm_lookup(es.drop_first(), key)
    }
}

/// A document's parsed frontmatter: the entries of its YAML mapping,
/// each key and value kept as a string where it is one.
#[derive(Debug)]
pub struct Frontmatter {
    entries: Vec<(Option<String>, Option<String>)>,
}

impl View for Frontmatter {
    type V = Seq<(Option<Seq<char>>, Option<Seq<char>>)>;

    closed spec fn view(&self) -> Seq<(Option<Seq<char>>, Option<Seq<char>>)> {
        self.entries.deep_view()
    }
}

impl Frontmatter {
    /// The string value under `key`, when the key exists and its value
    /// is a string.
    pub fn get_str(&self, key: &str) -> (r: Option<String>)
        ensures
            match r {
                Some(v) => fm_lookup(self@, key@) == Some(Some(v@)),
                None => forall|v: Seq<char>| fm_lookup(self@, key@) != Some(Some(v)),
            },
    {
        let kv = str_chars(key);
        let n = self.entries.len();
        let mut i: usize = 0;
        proof {
            assert(self@.subrange(0, self@.len() as int) =~= self@);
        }
        while i < n
            invariant
                0 <= i <= n == self.entries@.len(),
                kv@ == key@,
                self@ == self.entries.deep_view(),
                fm_lookup(self@, key@) == fm_lookup(
                    self@.subrange(i as int, self@.len() as int),
                    key@,
                ),
            decreases n - i,
        {
            let ghost suffix = self@.subrange(i as int, self@.len() as int);
            proof {
                assert(suffix[0] == self@[i as int]);
                assert(suffix.drop_first() =~= self@.subrange((i + 1) as int, self@.len() as int));
            }
            match &self.entries[i].0 {
                Some(k) => {
                    if crate::paths::string_eq_chars(k, &kv) {
                        proof {
                            assert(self@[i as int].0 == Some(key@));
                        }
                        match &self.entries[i].1 {
                            Some(v) => {
                                return Some(v.clone());
                            },
                            None => {
                                return None;
                            },
                        }
                    }
                },
                None => {},
            }
            proof {
                assert(self@[i as int].0 != Some(key@));
            }
            i += 1;
        }
        proof {
            assert(self@.subrange(n as int, self@.len() as int) =~= Seq::<
                (Option<Seq<char>>, Option<Seq<char>>),
            >::empty());
        }
        None
    }

    /// Whether `key` exists at all.
    pub fn has_key(&self, key: &str) -> (r: bool)
        ensures
            r == (fm_lookup(self@, key@) is Some),
    {
        let kv = str_chars(key);
        let n = self.entries.len();
        let mut i: usize = 0;
        proof {
            assert(self@.subrange(0, self@.len() as int) =~= self@);
        }
        while i < n
            invariant
                0 <= i <= n == self.entries@.len(),
                kv@ == key@,
                self@ == self.entries.deep_view(),
                fm_lookup(self@, key@) == fm_lookup(
                    self@.subrange(i as int, self@.len() as int),
                    key@,
                ),
            decreases n - i,
        {
            let ghost suffix = self@.subrange(i as int, self@.len() as int);
            proof {
                assert(suffix[0] == self@[i as int]);
                assert(suffix.drop_first() =~= self@.subrange((i + 1) as int, self@.len() as int));
            }
            match &self.entries[i].0 {
                Some(k) => {
                    if crate::paths::string_eq_chars(k, &kv) {
                        proof {
                            assert(self@[i as int].0 == Some(key@));
                        }
                        return true;
                    }
                },
                None => {},
            }
            proof {
                assert(self@[i as int].0 != Some(key@));
            }
            i += 1;
        }
        proof {
            assert(self@.subrange(n as int, self@.len() as int) =~= Seq::<
                (Option<Seq<char>>, Option<Seq<char>>),
            >::empty());
        }
        false
    }

    /// Whether `key` exists and holds a string.
    pub fn has_string(&self, key: &str) -> (r: bool)
        ensures
            r == (exists|v: Seq<char>| fm_lookup(self@, key@) == Some(Some(v))),
    {
        match self.get_str(key) {
            Some(v) => {
                proof {
                    assert(fm_lookup(self@, key@) == Some(Some(v@)));
                }
                true
            },
            None => false,
        }
    }
}

/// What extracting the frontmatter of `s` yields: the entries of its
/// metadata block and the body after the closing delimiter, or the
/// reason the document is rejected.
pub open spec fn frontmatter_outcome(s: Seq<char>) -> Result<
    (Seq<(Option<Seq<char>>, Option<Seq<char>>)>, Seq<char>),
    FrontmatterError,
> {
    let t = trim_start_spec(s);
    if !(at(t, 0, "---"@)) {
        Err(FrontmatterError::Missing)
    } else {
        match find_pat(t, 3, "\n---"@) {
            None => Err(FrontmatterError::EndDelimiterNotFound),
            Some(e) => {
                let block = trim_spec(t.subrange(3, e));
                let body = t.subrange(e + 4, t.len() as int);
                match yaml_entries_of(block) {
                    None => Err(FrontmatterError::Invalid),
                    Some(es) => if fm_lookup(es, "title"@) is None || fm_lookup(es, "date"@)
                        is None {
                        Err(FrontmatterError::MissingTitleOrDate)
                    } else if !(exists|v: Seq<char>| fm_lookup(es, "title"@) == Some(Some(v))) || !(
                    exists|v: Seq<char>| fm_lookup(es, "date"@) == Some(Some(v))) {
                        Err(FrontmatterError::NonStringTitleOrDate)
                    } else {
                        Ok((es, body))
                    },
                }
            },
        }
    }
}

/// Splits a document into its frontmatter and its body: the document
/// must open with a `---` line closed by a second one, parse as a YAML
/// mapping, and carry `title` and `date` as strings.
pub fn extract_frontmatter(content: &str) -> (r: Result<(Frontmatter, String), FrontmatterError>)
    ensures
        match r {
            Ok(fb) => frontmatter_outcome(content@) == Ok::<_, FrontmatterError>(
                (fb.0@, fb.1@),
            ),
            Err(e) => frontmatter_outcome(content@) == Err::<
                (Seq<(Option<Seq<char>>, Option<Seq<char>>)>, Seq<char>),
                _,
            >(e),
        },
{
    let cv = str_chars(content);
    let dashes = str_chars("---");
    let end_pat = str_chars("\n---");
    proof {
        reveal_strlit("---");
        reveal_strlit("\n---");
    }
    let mut a: usize = 0;
    proof {
        assert(cv@.subrange(0, cv@.len() as int) =~= cv@);
    }
    while a < cv.len() && char_is_space(cv[a])
        invariant
            0 <= a <= cv@.len(),
            trim_start_spec(cv@) == trim_start_spec(cv@.subrange(a as int, cv@.len() as int)),
        decreases cv@.len() - a,
    {
        proof {
            assert(cv@.subrange(a as int, cv@.len() as int).drop_first() =~= cv@.subrange(
                (a + 1) as int,
                cv@.len() as int,
            ));
        }
        a += 1;
    }
    let t = copy_range(&cv, a, cv.len());
    proof {
        if a < cv@.len() {
            assert(trim_start_spec(cv@) =~= t@);
        } else {
            assert(t@ =~= Seq::<char>::empty());
            assert(trim_start_spec(cv@) =~= t@);
        }
    }
    if !crate::text::match_at(&t, 0, &dashes) {
        return Err(FrontmatterError::Missing);
    }
    match find_pat_exec(&t, 3, &end_pat) {
        None => Err(FrontmatterError::EndDelimiterNotFound),
        Some(e) => {
            let raw_block = copy_range(&t, 3, e);
            let block = trim_vec_chars(&raw_block);
            let body = copy_range(&t, e + 4, t.len());
            let block_s = chars_string(&block);
            match parse_yaml_entries(block_s.as_str()) {
                None => Err(FrontmatterError::Invalid),
                Some(entries) => {
                    let fm = Frontmatter { entries };
                    proof {
                        assert(fm@ == yaml_entries_of(block@)->Some_0);
                    }
                    if !fm.has_key("title") || !fm.has_key("date") {
                        return Err(FrontmatterError::MissingTitleOrDate);
                    }
                    if !fm.has_string("title") || !fm.has_string("date") {
                        return Err(FrontmatterError::NonStringTitleOrDate);
                    }
                    Ok((fm, chars_string(&body)))
                },
            }
        },
    }
}

} // verus!
