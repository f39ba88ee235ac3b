use sekiei::paths::{
    find_unique_image, find_unique_internal_link, get_internal_link_path, resolve_path, FileIndex,
};
use sekiei::utils::{is_not_hidden_dir, sanitize_filename};

fn sample_index() -> FileIndex {
    FileIndex::build(&vec![
        "content/assets/diagram.png".to_string(),
        "content/notes/intro.md".to_string(),
        "content/index.md".to_string(),
        "content/a/dup.png".to_string(),
        "content/b/dup.png".to_string(),
    ])
}

#[test]
fn sanitize_keeps_plain_names() {
    assert_eq!(sanitize_filename("diagram.png"), "diagram.png");
    assert_eq!(sanitize_filename("a_b-c.1.png"), "a_b-c.1.png");
}

#[test]
fn sanitize_flattens_separators() {
    assert_eq!(sanitize_filename("assets/diagram.png"), "assets-diagram.png");
    assert_eq!(sanitize_filename("a\\b/c.png"), "a-b-c.png");
}

#[test]
fn sanitize_escapes_other_characters() {
    assert_eq!(sanitize_filename("a b.png"), "a-u0020b.png");
    assert_eq!(sanitize_filename("caf\u{e9}.png"), "caf-u00e9.png");
    assert_eq!(sanitize_filename("\u{1F600}.png"), "-u1f600.png");
}

#[test]
fn resolve_path_same_directory() {
    assert_eq!(resolve_path("./img.png", "content/notes/page.md"), "/static/notes-img.png");
}

#[test]
fn resolve_path_parent_directory() {
    assert_eq!(resolve_path("../img.png", "content/notes/page.md"), "/static/img.png");
}

#[test]
fn resolve_path_past_root_is_noop() {
    assert_eq!(resolve_path("../img.png", "content/page.md"), "/static/img.png");
}

#[test]
fn resolve_path_bare_reference_ignores_directory() {
    assert_eq!(resolve_path("img.png", "content/notes/page.md"), "/static/img.png");
    assert_eq!(resolve_path("sub/img.png", "content/notes/page.md"), "/static/sub-img.png");
}

#[test]
fn internal_link_strips_extension() {
    assert_eq!(get_internal_link_path("notes/foo.md"), "/notes/foo");
    assert_eq!(get_internal_link_path("notes/foo"), "/notes/foo");
}

#[test]
fn internal_link_index_is_root() {
    assert_eq!(get_internal_link_path("index.md"), "/");
    assert_eq!(get_internal_link_path("index"), "/");
}

#[test]
fn index_lookup_finds_names_and_stems() {
    let index = sample_index();
    assert_eq!(index.lookup("diagram.png"), vec!["content/assets/diagram.png".to_string()]);
    assert_eq!(index.lookup("intro.md"), vec!["content/notes/intro.md".to_string()]);
    assert_eq!(index.lookup("intro"), vec!["content/notes/intro.md".to_string()]);
    assert_eq!(index.lookup("missing"), Vec::<String>::new());
}

#[test]
fn unique_image_resolves_through_index() {
    let index = sample_index();
    assert_eq!(
        find_unique_image("diagram.png", "content/notes/page.md", &index),
        "/static/assets-diagram.png"
    );
}

#[test]
fn unique_image_zero_matches_falls_back() {
    let index = sample_index();
    assert_eq!(
        find_unique_image("missing.png", "content/notes/page.md", &index),
        resolve_path("missing.png", "content/notes/page.md")
    );
}

#[test]
fn unique_image_many_matches_takes_first() {
    let index = sample_index();
    assert_eq!(
        find_unique_image("dup.png", "content/notes/page.md", &index),
        "/static/a-dup.png"
    );
}

#[test]
fn unique_image_with_separator_resolves_relative() {
    let index = sample_index();
    assert_eq!(
        find_unique_image("./x.png", "content/notes/page.md", &index),
        "/static/notes-x.png"
    );
}

#[test]
fn unique_internal_link_finds_document() {
    let index = sample_index();
    assert_eq!(find_unique_internal_link("intro", &index), "/notes/intro");
    assert_eq!(find_unique_internal_link("index", &index), "/");
}

#[test]
fn unique_internal_link_zero_matches_falls_back() {
    let index = sample_index();
    assert_eq!(find_unique_internal_link("missing", &index), "/missing");
}

#[test]
fn unique_internal_link_ignores_non_documents() {
    let index = sample_index();
    assert_eq!(find_unique_internal_link("dup.png", &index), "/dup.png");
}

#[test]
fn hidden_directories_are_filtered() {
    assert!(!is_not_hidden_dir(true, ".git"));
    assert!(is_not_hidden_dir(true, "notes"));
    assert!(is_not_hidden_dir(false, ".hidden-file"));
}

#[test]
fn canonical_path_round_trips() {
    for rel in ["index.md", "notes/intro.md", "a/b/c.md"] {
        assert_eq!(
            get_internal_link_path(rel),
            sekiei::backlinks::canonical_path_of(rel)
        );
    }
}
