//! The backlink indexer: one forward pass over all documents that
//! rewrites each body, extracts its outgoing internal links, and
//! records the linking document against every normalized target.

use vstd::prelude::*;

use crate::markdown::Backlink;
use crate::paths::{strip_md_spec, FileIndex};
use crate::rewrite::process_paths_spec;
use crate::text::{chars_string, copy_range, push_all, starts_with, str_chars};

verus! {

/// One document handed to the indexer: its path relative to the
/// content root, its frontmatter title, and its body.
pub struct DocSource {
    pub rel_path: String,
    pub title: String,
    pub body: String,
}

impl View for DocSource {
    type V = (Seq<char>, Seq<char>, Seq<char>);

    open spec fn view(&self) -> (Seq<char>, Seq<char>, Seq<char>) {
        (self.rel_path@, self.title@, self.body@)
    }
}

/// The destinations of the links of a markdown text, in document
/// order, as pulldown-cmark parses them: a function of the text alone.
pub uninterp spec fn link_targets_of(s: Seq<char>) -> Seq<Seq<char>>;

/// Relies on pulldown_cmark's `Parser` with the GFM extension and its
/// `Tag::Link` events: hands out each link destination, in order.
#[verifier::external_body]
fn extract_links(text: &str) -> (r: Vec<String>)
    ensures
        r.deep_view() == link_targets_of(text@),
{
    let mut options = pulldown_cmark::Options::empty();
    options.insert(pulldown_cmark::Options::ENABLE_GFM);
    let mut out: Vec<String> = Vec::new();
    for event in pulldown_cmark::Parser::new_ext(text, options) {
        if let pulldown_cmark::Event::Start(pulldown_cmark::Tag::Link { dest_url, .. }) = event {
            out.push(dest_url.to_string());
        }
    }
    out
}

/// Targets the indexer leaves out: external URLs and wiki-namespace
/// references.
pub open spec fn external_target(t: Seq<char>) -> bool {
    starts_with(t, "http"@) || starts_with(t, "wiki:"@)
}

/// `s` with every leading slash removed.
pub open spec fn skip_slashes(s: Seq<char>) -> Seq<char>
    decreases s.len(),
{
    if s.len() > 0 && s[0] == '/' {
        skip_slashes(s.drop_first())
    } else {
        s
    }
}

/// The key a target is recorded under: leading slashes dropped and
/// the document extension stripped, exactly as document-path
/// resolution strips it.
pub open spec fn normalize_target(t: Seq<char>) -> Seq<char> {
    strip_md_spec(skip_slashes(t))
}

/// The canonical path of a source document: `index.md` is the site
/// root; everything else is its extension-stripped path behind a
/// slash.
pub open spec fn canonical_doc_path(rel: Seq<char>) -> Seq<char> {
    if rel == "index.md"@ {
        "/"@
    } else {
        "/"@ + strip_md_spec(rel)
    }
}

/// Computes the canonical path under which a document is rendered.
pub fn canonical_path_of(rel_path: &str) -> (r: String)
    ensures
        r@ == canonical_doc_path(rel_path@),
{
    let rv = str_chars(rel_path);
    let index_md = str_chars("index.md");
    let md = str_chars(".md");
    proof {
        reveal_strlit("index.md");
        reveal_strlit(".md");
        reveal_strlit("/");
    }
    let mut out: Vec<char> = Vec::new();
    out.push('/');
    proof {
        assert(out@ =~= "/"@);
    }
    if crate::paths::vec_eq(&rv, &index_md) {
        return chars_string(&out);
    }
    let clean = if crate::text::suffix_eq(&rv, &md) {
        copy_range(&rv, 0, rv.len() - 3)
    } else {
        proof {
            assert(rv@.subrange(0, rv@.len() as int) =~= rv@);
        }
        copy_range(&rv, 0, rv.len())
    };
    proof {
        assert(clean@ == strip_md_spec(rel_path@));
    }
    push_all(&mut out, &clean);
    chars_string(&out)
}

/// A recorded backlink pair: the normalized target it is keyed by,
/// and the linking document's title and canonical path.
pub struct BacklinkGraph {
    pairs: Vec<(String, Backlink)>,
}

impl View for BacklinkGraph {
    type V = Seq<(Seq<char>, (Seq<char>, Seq<char>))>;

    closed spec fn view(&self) -> Seq<(Seq<char>, (Seq<char>, Seq<char>))> {
        Seq::new(self.pairs@.len(), |i: int| (self.pairs@[i].0@, self.pairs@[i].1@))
    }
}

/// The backlinks recorded under `key`, in insertion order.
pub open spec fn backlinks_under(
    g: Seq<(Seq<char>, (Seq<char>, Seq<char>))>,
    key: Seq<char>,
) -> Seq<(Seq<char>, Seq<char>)>
    decreases g.len(),
{
    if g.len() == 0 {
        Seq::empty()
    } else {
        let rest = backlinks_under(g.drop_last(), key);
        if g.last().0 == key {
            rest.push(g.last().1)
        } else {
            rest
        }
    }
}

/// The graph after one document's targets, from index `j` on, are
/// recorded: external targets are skipped and duplicates recorded
/// once.
pub open spec fn record_targets(
    acc: Seq<(Seq<char>, (Seq<char>, Seq<char>))>,
    ts: Seq<Seq<char>>,
    j: int,
    title: Seq<char>,
    spath: Seq<char>,
) -> Seq<(Seq<char>, (Seq<char>, Seq<char>))>
    decreases ts.len() - j when 0 <= j <= ts.len()
{
    if j >= ts.len() {
        acc
    } else if external_target(ts[j]) {
        record_targets(acc, ts, j + 1, title, spath)
    } else {
        let p = (normalize_target(ts[j]), (title, spath));
        record_targets(
            if acc.contains(p) {
                acc
            } else {
                acc.push(p)
            },
            ts,
            j + 1,
            title,
            spath,
        )
    }
}

/// The rewritten body the indexer scans for a document.
pub open spec fn indexed_body(
    d: (Seq<char>, Seq<char>, Seq<char>),
    idx: Seq<(Seq<char>, Seq<char>)>,
) -> Seq<char> {
    process_paths_spec(d.2, "content/"@ + d.0, idx)
}

/// The whole graph after the documents from index `k` on are
/// recorded.
pub open spec fn backlinks_of(
    acc: Seq<(Seq<char>, (Seq<char>, Seq<char>))>,
    docs: Seq<(Seq<char>, Seq<char>, Seq<char>)>,
    k: int,
    idx: Seq<(Seq<char>, Seq<char>)>,
) -> Seq<(Seq<char>, (Seq<char>, Seq<char>))>
    decreases docs.len() - k when 0 <= k <= docs.len()
{
    if k >= docs.len() {
        acc
    } else {
        let d = docs[k];
        let ts = link_targets_of(indexed_body(d, idx));
        backlinks_of(
            record_targets(acc, ts, 0, d.1, canonical_doc_path(d.0)),
            docs,
            k + 1,
            idx,
        )
    }
}

impl BacklinkGraph {
    /// The backlinks recorded against a canonical path; empty for a
    /// document nothing links to.
    pub fn get(&self, path: &str) -> (r: Vec<Backlink>)
        ensures
            r@.map_values(|b: Backlink| b@) == backlinks_under(self@, path@),
    {
        let pv = str_chars(path);
        let mut r: Vec<Backlink> = Vec::new();
        let mut i: usize = 0;
        proof {
            assert(self@.subrange(0, self@.len() as int) =~= self@);
            assert(r@.map_values(|b: Backlink| b@) =~= backlinks_under(
                self@.subrange(0, 0),
                path@,
            ));
        }
        while i < self.pairs.len()
            invariant
                0 <= i <= self.pairs@.len() == self@.len(),
                pv@ == path@,
                self@ == Seq::new(
                    self.pairs@.len(),
                    |k: int| (self.pairs@[k].0@, self.pairs@[k].1@),
                ),
                r@.map_values(|b: Backlink| b@) == backlinks_under(
                    self@.subrange(0, i as int),
                    path@,
                ),
            decreases self.pairs@.len() - i,
        {
            let ghost prev = r@.map_values(|b: Backlink| b@);
            if crate::paths::string_eq_chars(&self.pairs[i].0, &pv) {
                let b = &self.pairs[i].1;
                r.push(Backlink { title: b.title.clone(), path: b.path.clone() });
            }
            proof {
                assert(self@.subrange(0, (i + 1) as int).drop_last() =~= self@.subrange(
                    0,
                    i as int,
                ));
                assert(self@.subrange(0, (i + 1) as int).last() == self@[i as int]);
                if self.pairs@[i as int].0@ == path@ {
                    assert(r@.map_values(|b: Backlink| b@) =~= prev.push(
                        self.pairs@[i as int].1@,
                    ));
                }
                assert(r@.map_values(|b: Backlink| b@) =~= backlinks_under(
                    self@.subrange(0, (i + 1) as int),
                    path@,
                ));
            }
            i += 1;
        }
        proof {
            assert(self@.subrange(0, self@.len() as int) =~= self@);
        }
        r
    }

    fn contains_pair(&self, key: &Vec<char>, title: &str, spath: &str) -> (r: bool)
        ensures
            r == self@.contains((key@, (title@, spath@))),
    {
        let mut i: usize = 0;
        while i < self.pairs.len()
            invariant
                0 <= i <= self.pairs@.len() == self@.len(),
                self@ == Seq::new(
                    self.pairs@.len(),
                    |k: int| (self.pairs@[k].0@, self.pairs@[k].1@),
                ),
                forall|k: int| 0 <= k < i ==> self@[k] != (key@, (title@, spath@)),
            decreases self.pairs@.len() - i,
        {
            if crate::paths::string_eq_chars(&self.pairs[i].0, key) {
                let tv = str_chars(title);
                let sv = str_chars(spath);
                if crate::paths::string_eq_chars(&self.pairs[i].1.title, &tv) && crate::paths::string_eq_chars(
                    &self.pairs[i].1.path,
                    &sv,
                ) {
                    proof {
                        assert(self@[i as int] == (key@, (title@, spath@)));
                    }
                    return true;
                }
            }
            proof {
                assert(self@[i as int] != (key@, (title@, spath@)));
            }
            i += 1;
        }
        false
    }
}

/// Collects the backlink graph: for every document, the rewritten
/// body's internal link targets are normalized and the document's
/// title and canonical path recorded against each, once.
pub fn collect_backlinks(docs: &Vec<DocSource>, index: &FileIndex) -> (g: BacklinkGraph)
    ensures
        g@ == backlinks_of(
            Seq::empty(),
            docs@.map_values(|d: DocSource| d@),
            0,
            index@,
        ),
{
    let ghost dv = docs@.map_values(|d: DocSource| d@);
    let mut g = BacklinkGraph { pairs: Vec::new() };
    proof {
        assert(g@ =~= Seq::<(Seq<char>, (Seq<char>, Seq<char>))>::empty());
    }
    let mut k: usize = 0;
    while k < docs.len()
        invariant
            0 <= k <= docs@.len() == dv.len(),
            dv == docs@.map_values(|d: DocSource| d@),
            backlinks_of(Seq::empty(), dv, 0, index@) == backlinks_of(g@, dv, k as int, index@),
        decreases docs@.len() - k,
    {
        let ghost g_before = g@;
        let d = &docs[k];
        let mut current = str_chars("content/");
        proof {
            reveal_strlit("content/");
        }
        let rv = str_chars(d.rel_path.as_str());
        push_all(&mut current, &rv);
        let cur_s = chars_string(&current);
        let rewritten = crate::rewrite::process_paths(d.body.as_str(), cur_s.as_str(), index);
        let targets = extract_links(rewritten.as_str());
        let spath = canonical_path_of(d.rel_path.as_str());
        let ghost ts = link_targets_of(rewritten@);
        proof {
            assert(dv[k as int] == docs@[k as int]@);
            assert(rewritten@ == indexed_body(dv[k as int], index@));
            assert(ts.subrange(0, ts.len() as int) =~= ts);
        }
        let http_pat = str_chars("http");
        let wiki_pat = str_chars("wiki:");
        let md_pat = str_chars(".md");
        proof {
            reveal_strlit("http");
            reveal_strlit("wiki:");
            reveal_strlit(".md");
        }
        let ghost doc_title = d.title@;
        let mut j: usize = 0;
        while j < targets.len()
            invariant
                0 <= j <= targets@.len(),
                targets.deep_view() == ts,
                http_pat@ == "http"@,
                wiki_pat@ == "wiki:"@,
                md_pat@ == ".md"@,
                doc_title == d.title@,
                record_targets(g_before, ts, 0, doc_title, spath@) == record_targets(
                    g@,
                    ts,
                    j as int,
                    doc_title,
                    spath@,
                ),
            decreases targets@.len() - j,
        {
            let tv = str_chars(targets[j].as_str());
            proof {
                assert(tv@ =~= ts[j as int]);
            }
            if !crate::text::prefix_eq(&tv, &http_pat) && !crate::text::prefix_eq(
                &tv,
                &wiki_pat,
            ) {
                // Normalize the target and record the pair once.
                proof {
                    assert(tv@.subrange(0, tv@.len() as int) =~= tv@);
                }
                let mut a: usize = 0;
                while a < tv.len() && tv[a] == '/'
                    invariant
                        0 <= a <= tv@.len(),
                        skip_slashes(tv@) == skip_slashes(
                            tv@.subrange(a as int, tv@.len() as int),
                        ),
                    decreases tv@.len() - a,
                {
                    proof {
                        assert(tv@.subrange(a as int, tv@.len() as int).drop_first()
                            =~= tv@.subrange((a + 1) as int, tv@.len() as int));
                    }
                    a += 1;
                }
                let skipped = copy_range(&tv, a, tv.len());
                proof {
                    if a < tv@.len() {
                        assert(skipped@ =~= skip_slashes(tv@));
                    } else {
                        assert(skipped@ =~= Seq::<char>::empty());
                        assert(tv@.subrange(a as int, tv@.len() as int) =~= skipped@);
                        assert(skipped@ =~= skip_slashes(tv@));
                    }
                }
                let key = if crate::text::suffix_eq(&skipped, &md_pat) {
                    proof {
                        reveal_strlit(".md");
                        assert(skipped@.len() >= 3);
                    }
                    copy_range(&skipped, 0, skipped.len() - 3)
                } else {
                    proof {
                        assert(skipped@.subrange(0, skipped@.len() as int) =~= skipped@);
                    }
                    copy_range(&skipped, 0, skipped.len())
                };
                proof {
                    assert(key@ == normalize_target(ts[j as int]));
                }
                if !g.contains_pair(&key, d.title.as_str(), spath.as_str()) {
                    let ghost prev = g@;
                    g.pairs.push(
                        (
                            chars_string(&key),
                            Backlink { title: d.title.clone(), path: spath.clone() },
                        ),
                    );
                    proof {
                        assert(g@ =~= prev.push((key@, (d.title@, spath@))));
                    }
                }
            }
            j += 1;
        }
        proof {
            assert(record_targets(g@, ts, targets@.len() as int, doc_title, spath@) == g@);
            assert(g@ == record_targets(g_before, ts, 0, doc_title, spath@));
            assert(backlinks_of(g_before, dv, k as int, index@) == backlinks_of(
                g@,
                dv,
                (k + 1) as int,
                index@,
            ));
        }
        k += 1;
    }
    proof {
        assert(backlinks_of(g@, dv, dv.len() as int, index@) == g@);
    }
    g
}

/// Resolving a document's own canonical path as an internal link
/// round-trips: the document-path rule applied to the document's
/// relative path yields exactly the path its output is rendered
/// under.
pub proof fn lemma_internal_link_round_trip(rel: Seq<char>)
    requires
        crate::text::ends_with(rel, ".md"@),
    ensures
        crate::paths::internal_link_spec(rel) == canonical_doc_path(rel),
{
    reveal(crate::paths::internal_link_spec);
    reveal_strlit(".md");
    reveal_strlit("index.md");
    reveal_strlit("index");
    reveal_strlit("/");
    let clean = strip_md_spec(rel);
    if rel == "index.md"@ {
        assert(clean =~= "index"@);
    } else {
        if clean == "index"@ {
            assert(rel.subrange(rel.len() - 3, rel.len() as int) == ".md"@);
            assert(rel =~= clean + rel.subrange(rel.len() - 3, rel.len() as int));
            assert(("index"@ + ".md"@) =~= "index.md"@);
            assert(rel == "index.md"@);
        }
    }
}

proof fn lemma_contains_push(
    acc: Seq<(Seq<char>, (Seq<char>, Seq<char>))>,
    x: (Seq<char>, (Seq<char>, Seq<char>)),
    p: (Seq<char>, (Seq<char>, Seq<char>)),
)
    requires
        acc.contains(p) || x == p,
    ensures
        acc.push(x).contains(p),
{
    if x == p {
        assert(acc.push(x)[acc.len() as int] == p);
    } else {
        let i = choose|i: int| 0 <= i < acc.len() && acc[i] == p;
        assert(acc.push(x)[i] == p);
    }
}

proof fn lemma_record_targets_monotone(
    acc: Seq<(Seq<char>, (Seq<char>, Seq<char>))>,
    ts: Seq<Seq<char>>,
    j: int,
    title: Seq<char>,
    spath: Seq<char>,
    p: (Seq<char>, (Seq<char>, Seq<char>)),
)
    requires
        0 <= j <= ts.len(),
        acc.contains(p),
    ensures
        record_targets(acc, ts, j, title, spath).contains(p),
    decreases ts.len() - j,
{
    if j < ts.len() {
        if external_target(ts[j]) {
            lemma_record_targets_monotone(acc, ts, j + 1, title, spath, p);
        } else {
            let q = (normalize_target(ts[j]), (title, spath));
            if acc.contains(q) {
                lemma_record_targets_monotone(acc, ts, j + 1, title, spath, p);
            } else {
                lemma_contains_push(acc, q, p);
                lemma_record_targets_monotone(acc.push(q), ts, j + 1, title, spath, p);
            }
        }
    }
}

proof fn lemma_record_targets_records(
    acc: Seq<(Seq<char>, (Seq<char>, Seq<char>))>,
    ts: Seq<Seq<char>>,
    j0: int,
    j: int,
    title: Seq<char>,
    spath: Seq<char>,
)
    requires
        0 <= j0 <= j < ts.len(),
        !external_target(ts[j]),
    ensures
        record_targets(acc, ts, j0, title, spath).contains(
            (normalize_target(ts[j]), (title, spath)),
        ),
    decreases j - j0,
{
    let p = (normalize_target(ts[j]), (title, spath));
    if j0 == j {
        if acc.contains(p) {
            lemma_record_targets_monotone(acc, ts, j0 + 1, title, spath, p);
        } else {
            lemma_contains_push(acc, p, p);
            lemma_record_targets_monotone(acc.push(p), ts, j0 + 1, title, spath, p);
        }
    } else {
        if external_target(ts[j0]) {
            lemma_record_targets_records(acc, ts, j0 + 1, j, title, spath);
        } else {
            let q = (normalize_target(ts[j0]), (title, spath));
            if acc.contains(q) {
                lemma_record_targets_records(acc, ts, j0 + 1, j, title, spath);
            } else {
                lemma_record_targets_records(acc.push(q), ts, j0 + 1, j, title, spath);
            }
        }
    }
}

proof fn lemma_backlinks_of_monotone(
    acc: Seq<(Seq<char>, (Seq<char>, Seq<char>))>,
    docs: Seq<(Seq<char>, Seq<char>, Seq<char>)>,
    k: int,
    idx: Seq<(Seq<char>, Seq<char>)>,
    p: (Seq<char>, (Seq<char>, Seq<char>)),
)
    requires
        0 <= k <= docs.len(),
        acc.contains(p),
    ensures
        backlinks_of(acc, docs, k, idx).contains(p),
    decreases docs.len() - k,
{
    if k < docs.len() {
        let d = docs[k];
        let ts = link_targets_of(indexed_body(d, idx));
        lemma_record_targets_monotone(acc, ts, 0, d.1, canonical_doc_path(d.0), p);
        lemma_backlinks_of_monotone(
            record_targets(acc, ts, 0, d.1, canonical_doc_path(d.0)),
            docs,
            k + 1,
            idx,
            p,
        );
    }
}

proof fn lemma_backlinks_of_records(
    acc: Seq<(Seq<char>, (Seq<char>, Seq<char>))>,
    docs: Seq<(Seq<char>, Seq<char>, Seq<char>)>,
    k0: int,
    k: int,
    j: int,
    idx: Seq<(Seq<char>, Seq<char>)>,
)
    requires
        0 <= k0 <= k < docs.len(),
        0 <= j < link_targets_of(indexed_body(docs[k], idx)).len(),
        !external_target(link_targets_of(indexed_body(docs[k], idx))[j]),
    ensures
        backlinks_of(acc, docs, k0, idx).contains(
            (
                normalize_target(link_targets_of(indexed_body(docs[k], idx))[j]),
                (docs[k].1, canonical_doc_path(docs[k].0)),
            ),
        ),
    decreases k - k0,
{
    let d0 = docs[k0];
    let ts0 = link_targets_of(indexed_body(d0, idx));
    let acc1 = record_targets(acc, ts0, 0, d0.1, canonical_doc_path(d0.0));
    if k0 == k {
        lemma_record_targets_records(acc, ts0, 0, j, d0.1, canonical_doc_path(d0.0));
        lemma_backlinks_of_monotone(
            acc1,
            docs,
            k0 + 1,
            idx,
            (normalize_target(ts0[j]), (d0.1, canonical_doc_path(d0.0))),
        );
    } else {
        lemma_backlinks_of_records(acc1, docs, k0 + 1, k, j, idx);
    }
}

/// Backlink symmetry: when a document's rewritten body links to an
/// internal target, the graph's entry for that normalized target
/// records the linking document's title and canonical path.
pub proof fn lemma_backlink_symmetry(
    docs: Seq<(Seq<char>, Seq<char>, Seq<char>)>,
    idx: Seq<(Seq<char>, Seq<char>)>,
    k: int,
    j: int,
)
    requires
        0 <= k < docs.len(),
        0 <= j < link_targets_of(indexed_body(docs[k], idx)).len(),
        !external_target(link_targets_of(indexed_body(docs[k], idx))[j]),
    ensures
        backlinks_of(Seq::empty(), docs, 0, idx).contains(
            (
                normalize_target(link_targets_of(indexed_body(docs[k], idx))[j]),
                (docs[k].1, canonical_doc_path(docs[k].0)),
            ),
        ),
{
    lemma_backlinks_of_records(Seq::empty(), docs, 0, k, j, idx);
}

} // verus!
