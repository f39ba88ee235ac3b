use sekiei::paths::{resolve_path, FileIndex};
use sekiei::rewrite::{
    process_alternative_images, process_links, process_paths, process_standard_images,
    process_wiki_parenthetical_links,
};

fn sample_index() -> FileIndex {
    FileIndex::build(&vec![
        "content/assets/diagram.png".to_string(),
        "content/notes/intro.md".to_string(),
        "content/index.md".to_string(),
    ])
}

#[test]
fn standard_image_relative_target_rewritten() {
    assert_eq!(
        process_standard_images("before ![alt](img.png) after", "content/notes/page.md"),
        "before ![alt](/static/img.png) after"
    );
}

#[test]
fn standard_image_absolute_target_stands() {
    let s = "![a](https://example.org/x.png) ![b](/static/y.png) ![c](http://e/z.png)";
    assert_eq!(process_standard_images(s, "content/notes/page.md"), s);
}

#[test]
fn embed_image_with_alt_resolves_unique_name() {
    // A reference naming exactly one indexed file resolves through the
    // index, wherever the referencing document sits.
    let index = sample_index();
    assert_eq!(
        process_alternative_images("![[diagram.png|A diagram]]", "content/notes/page.md", &index),
        "![A diagram](/static/assets-diagram.png)"
    );
}

#[test]
fn embed_image_without_alt_has_empty_alt_text() {
    let index = sample_index();
    assert_eq!(
        process_alternative_images("![[diagram.png]]", "content/notes/page.md", &index),
        "![](/static/assets-diagram.png)"
    );
}

#[test]
fn wiki_link_with_display_text() {
    let index = sample_index();
    assert_eq!(
        process_links("[[wiki:Rust|Rust language]]", &index),
        "[wiki:Rust language](https://en.wikipedia.org/wiki/Rust)"
    );
}

#[test]
fn wiki_link_without_display_uses_article() {
    let index = sample_index();
    assert_eq!(
        process_links("[[wiki:Rust]]", &index),
        "[wiki:Rust](https://en.wikipedia.org/wiki/Rust)"
    );
}

#[test]
fn internal_link_bare_name_resolves_through_index() {
    let index = sample_index();
    assert_eq!(process_links("see [[intro]]", &index), "see [intro](/notes/intro)");
}

#[test]
fn internal_link_with_path_uses_document_rule() {
    let index = sample_index();
    assert_eq!(
        process_links("[[notes/intro.md|the intro]]", &index),
        "[the intro](/notes/intro)"
    );
}

#[test]
fn internal_link_default_display_is_last_segment() {
    let index = sample_index();
    assert_eq!(process_links("[[notes/intro]]", &index), "[intro](/notes/intro)");
}

#[test]
fn parenthetical_wiki_reference_rewritten() {
    assert_eq!(
        process_wiki_parenthetical_links("x [text](wiki:Static_site) y"),
        "x [text](https://en.wikipedia.org/wiki/Static_site) y"
    );
}

#[test]
fn wiki_pass_is_idempotent_on_rewritten_output() {
    let once = process_wiki_parenthetical_links("a [t](wiki:Rust) b [u](wiki:Verus) c");
    let twice = process_wiki_parenthetical_links(&once);
    assert_eq!(once, twice);
}

#[test]
fn unresolved_reference_matches_fallback_exactly() {
    // Zero index matches: the rewriter output is byte-identical to
    // applying the path-relative fallback directly.
    let index = sample_index();
    let rewritten =
        process_alternative_images("![[missing.png]]", "content/notes/page.md", &index);
    let fallback = resolve_path("missing.png", "content/notes/page.md");
    assert_eq!(rewritten, format!("![]({})", fallback));
}

#[test]
fn all_passes_compose() {
    let index = sample_index();
    let body = "![p](pic.png)\n![[diagram.png|d]]\n[[intro]]\n[w](wiki:Rust)";
    assert_eq!(
        process_paths(body, "content/notes/page.md", &index),
        "![p](/static/pic.png)\n![d](/static/assets-diagram.png)\n[intro](/notes/intro)\n[w](https://en.wikipedia.org/wiki/Rust)"
    );
}

#[test]
fn malformed_references_stand_unchanged() {
    let index = sample_index();
    let body = "[[unclosed [x](nowiki:Y) done";
    assert_eq!(process_links(body, &index), body);
    assert_eq!(process_wiki_parenthetical_links(body), body);
}

#[test]
fn lazy_loading_wraps_images() {
    let html = "<p><img alt=\"x\" src=\"/static/pic.png\"></p>";
    let out = sekiei::lazy_load::add_lazy_loading(html, false);
    assert!(out.contains("data-src=\"/static/pic.png\""));
    assert!(out.contains("src=\"/static/lazy/pic.png\""));
    assert!(out.contains("class=\"lazy-image-container\""));
    assert!(out.contains("<img class=\"placeholder\" src=\"/static/lazy/pic.png\" alt=\"loading...\">"));
    assert!(out.starts_with("<p>"));
    assert!(out.ends_with("</p>"));
}

#[test]
fn lazy_loading_webp_placeholder() {
    let html = "<img src=\"a/b/photo.jpg\">";
    let out = sekiei::lazy_load::add_lazy_loading(html, true);
    assert!(out.contains("src=\"/static/lazy/photo.webp\""));
    assert!(out.contains("data-src=\"a/b/photo.jpg\""));
}

#[test]
fn lazy_loading_leaves_other_tags_alone() {
    let html = "<p>no images here</p><imgs src=\"x\">";
    assert_eq!(sekiei::lazy_load::add_lazy_loading(html, false), html);
}
