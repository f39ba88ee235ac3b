use sekiei::backlinks::{canonical_path_of, collect_backlinks, DocSource};
use sekiei::paths::FileIndex;

fn doc(rel: &str, title: &str, body: &str) -> DocSource {
    DocSource {
        rel_path: rel.to_string(),
        title: title.to_string(),
        body: body.to_string(),
    }
}

#[test]
fn canonical_paths() {
    assert_eq!(canonical_path_of("index.md"), "/");
    assert_eq!(canonical_path_of("notes/intro.md"), "/notes/intro");
}

#[test]
fn backlink_recorded_for_internal_link() {
    let index = FileIndex::build(&vec![
        "content/notes/intro.md".to_string(),
        "content/about.md".to_string(),
    ]);
    let docs = vec![
        doc("about.md", "About", "see [[intro]]"),
        doc("notes/intro.md", "Intro", "plain text"),
    ];
    let graph = collect_backlinks(&docs, &index);
    let links = graph.get("notes/intro");
    assert_eq!(links.len(), 1);
    assert_eq!(links[0].title, "About");
    assert_eq!(links[0].path, "/about");
}

#[test]
fn duplicate_links_recorded_once() {
    let index = FileIndex::build(&vec![
        "content/notes/intro.md".to_string(),
        "content/about.md".to_string(),
    ]);
    let docs = vec![doc("about.md", "About", "[[intro]] and again [[intro]]")];
    let graph = collect_backlinks(&docs, &index);
    assert_eq!(graph.get("notes/intro").len(), 1);
}

#[test]
fn external_and_wiki_links_are_skipped() {
    let index = FileIndex::build(&vec!["content/about.md".to_string()]);
    let docs = vec![doc(
        "about.md",
        "About",
        "[e](https://example.org) [w](wiki:Rust) [h](http://x)",
    )];
    let graph = collect_backlinks(&docs, &index);
    assert_eq!(graph.get("https:/example.org").len(), 0);
    assert_eq!(graph.get("example.org").len(), 0);
}

#[test]
fn unlinked_document_has_empty_entry() {
    let index = FileIndex::build(&Vec::new());
    let graph = collect_backlinks(&Vec::new(), &index);
    assert!(graph.get("never/linked").is_empty());
}

#[test]
fn index_link_keyed_under_empty_path() {
    let index = FileIndex::build(&vec![
        "content/index.md".to_string(),
        "content/about.md".to_string(),
    ]);
    let docs = vec![doc("about.md", "About", "[home](/)")];
    let graph = collect_backlinks(&docs, &index);
    let links = graph.get("");
    assert_eq!(links.len(), 1);
    assert_eq!(links[0].path, "/about");
}
