use sekiei::frontmatter::{extract_frontmatter, FrontmatterError};
use sekiei::markdown::{
    extract_language_and_filename, language_token, markdown_to_html, parse_highlighting_info,
    slugify,
};
use sekiei::paths::FileIndex;

fn empty_index() -> FileIndex {
    FileIndex::build(&Vec::new())
}

#[test]
fn frontmatter_scenario_intro() {
    let doc = "---\ntitle: \"Intro\"\ndate: \"2024-01-01\"\n---\n# Hello World";
    let (fm, body) = extract_frontmatter(doc).unwrap();
    assert_eq!(fm.get_str("title").unwrap(), "Intro");
    assert_eq!(fm.get_str("date").unwrap(), "2024-01-01");
    assert_eq!(body, "\n# Hello World");
}

#[test]
fn frontmatter_missing_start() {
    let e = extract_frontmatter("# No frontmatter").unwrap_err();
    assert_eq!(e, FrontmatterError::Missing);
    assert_eq!(e.message(), "Frontmatter is missing");
}

#[test]
fn frontmatter_missing_end() {
    let e = extract_frontmatter("---\ntitle: x").unwrap_err();
    assert_eq!(e, FrontmatterError::EndDelimiterNotFound);
    assert_eq!(e.message(), "Frontmatter end delimiter not found");
}

#[test]
fn frontmatter_invalid_yaml() {
    let e = extract_frontmatter("---\na: [unclosed\n---\nbody").unwrap_err();
    assert_eq!(e, FrontmatterError::Invalid);
}

#[test]
fn frontmatter_missing_title_or_date() {
    let e = extract_frontmatter("---\ntitle: x\n---\nbody").unwrap_err();
    assert_eq!(e, FrontmatterError::MissingTitleOrDate);
    assert_eq!(e.message(), "Missing title or date in frontmatter");
}

#[test]
fn frontmatter_non_string_title() {
    let e = extract_frontmatter("---\ntitle: [a, b]\ndate: \"2024-01-01\"\n---\nbody")
        .unwrap_err();
    assert_eq!(e, FrontmatterError::NonStringTitleOrDate);
    assert_eq!(e.message(), "Title and date must be strings");
}

#[test]
fn frontmatter_description_is_optional() {
    let doc = "---\ntitle: t\ndate: d\ndescription: about\n---\nbody";
    let (fm, _) = extract_frontmatter(doc).unwrap();
    assert_eq!(fm.get_str("description").unwrap(), "about");
    let doc2 = "---\ntitle: t\ndate: d\n---\nbody";
    let (fm2, _) = extract_frontmatter(doc2).unwrap();
    assert!(fm2.get_str("description").is_none());
}

#[test]
fn heading_scenario_hello_world() {
    let index = empty_index();
    let (html, toc) = markdown_to_html("# Hello World", "content/index.md", &index);
    assert_eq!(toc.len(), 1);
    assert_eq!(toc[0].level, 1);
    assert_eq!(toc[0].title, "Hello World");
    assert_eq!(toc[0].id, "hello-world");
    assert!(html.contains("<h1 id=\"hello-world\">Hello World</h1>"));
}

#[test]
fn toc_entries_follow_document_order() {
    let index = empty_index();
    let md = "## Second Level\n\ntext\n\n# First Level\n\n### Third Level\n";
    let (_, toc) = markdown_to_html(md, "content/index.md", &index);
    let titles: Vec<&str> = toc.iter().map(|e| e.title.as_str()).collect();
    assert_eq!(titles, vec!["Second Level", "First Level", "Third Level"]);
    let levels: Vec<u32> = toc.iter().map(|e| e.level).collect();
    assert_eq!(levels, vec![2, 1, 3]);
}

#[test]
fn slug_drops_punctuation_and_lowercases() {
    assert_eq!(slugify("Hello World"), "hello-world");
    assert_eq!(slugify("  C'est Fini!  "), "cest-fini");
    assert_eq!(slugify("a-b c"), "a-b-c");
}

#[test]
fn language_tokens_cover_aliases() {
    assert_eq!(language_token("RS").unwrap(), "rust");
    assert_eq!(language_token("golang").unwrap(), "go");
    assert_eq!(language_token("ml").unwrap(), "ocaml");
    assert_eq!(language_token("C++").unwrap(), "cpp");
    assert!(language_token("klingon").is_none());
}

#[test]
fn info_string_language_and_filename() {
    let (lang, file) = extract_language_and_filename("rust title=\"main.rs\" {1}");
    assert_eq!(lang.unwrap(), "rust");
    assert_eq!(file.unwrap(), "main.rs");
    let (lang2, file2) = extract_language_and_filename("");
    assert!(lang2.is_none());
    assert!(file2.is_none());
    let (_, file3) = extract_language_and_filename("rust title='x.rs'");
    assert_eq!(file3.unwrap(), "x.rs");
    let (_, file4) = extract_language_and_filename("rust title=");
    assert!(file4.is_none());
}

#[test]
fn highlight_annotation_precedence() {
    // Bare ranges mark highlights unless an add= or del= range takes
    // the line first.
    let (del, add, high) = parse_highlighting_info("rust {2,4-5} del={4} add={5}");
    assert!(del.contains(&4) && del.len() == 1);
    assert!(add.contains(&5) && add.len() == 1);
    assert!(high.contains(&2) && high.contains(&4) && high.contains(&5) && high.len() == 3);
}

#[test]
fn highlight_annotation_ranges_and_garbage() {
    let (del, add, high) = parse_highlighting_info("c del={1-3} add={x} {7, 9-10}");
    assert_eq!(del.len(), 3);
    assert!(del.contains(&1) && del.contains(&2) && del.contains(&3));
    assert!(add.is_empty());
    assert!(high.contains(&7) && high.contains(&9) && high.contains(&10) && high.len() == 3);
}

#[test]
fn annotated_code_block_renders_classes() {
    let index = empty_index();
    let md = "```rust {2,4-5}\nlet a = 1;\nlet b = 2;\nlet c = 3;\nlet d = 4;\nlet e = 5;\n```\n";
    let (html, _) = markdown_to_html(md, "content/index.md", &index);
    assert!(html.contains("<span class=\"highlight\"><span class=\"line-number\">2</span>"));
    assert!(html.contains("<span class=\"highlight\"><span class=\"line-number\">4</span>"));
    assert!(html.contains("<span class=\"highlight\"><span class=\"line-number\">5</span>"));
    assert!(html.contains("<span><span class=\"line-number\">1</span>"));
    assert!(html.contains("<span class=\"code-language\">rust</span>"));
}

#[test]
fn del_and_add_override_highlight() {
    let index = empty_index();
    let md = "```rust {1-2} del={1} add={2}\nlet a = 1;\nlet b = 2;\n```\n";
    let (html, _) = markdown_to_html(md, "content/index.md", &index);
    assert!(html.contains("<span class=\"highlight-del\"><span class=\"line-number\">1</span>"));
    assert!(html.contains("<span class=\"highlight-add\"><span class=\"line-number\">2</span>"));
}

#[test]
fn known_language_is_syntax_highlighted() {
    let index = empty_index();
    let md = "```rust\nfn main() {}\n```\n";
    let (html, _) = markdown_to_html(md, "content/index.md", &index);
    assert!(html.contains("class=\"keyword\""));
}

#[test]
fn unknown_language_degrades_to_escaped_text() {
    let index = empty_index();
    let md = "```klingon\na < b && c > d\n```\n";
    let (html, _) = markdown_to_html(md, "content/index.md", &index);
    let escaped = htmlescape::encode_minimal("a < b && c > d");
    assert!(html.contains(&escaped));
    assert!(html.contains("<span class=\"code-language\">klingon</span>"));
}

#[test]
fn code_block_filename_header() {
    let index = empty_index();
    let md = "```rust title=\"main.rs\"\nfn main() {}\n```\n";
    let (html, _) = markdown_to_html(md, "content/index.md", &index);
    assert!(html.contains("<span class=\"code-filename\">main.rs</span>"));
}

#[test]
fn line_numbers_are_zero_padded() {
    let index = empty_index();
    let mut md = String::from("```text\n");
    for i in 1..=12 {
        md.push_str(&format!("line {}\n", i));
    }
    md.push_str("```\n");
    let (html, _) = markdown_to_html(&md, "content/index.md", &index);
    assert!(html.contains("<span class=\"line-number\">01</span>"));
    assert!(html.contains("<span class=\"line-number\">12</span>"));
}

#[test]
fn rendered_body_rewrites_references() {
    let index = FileIndex::build(&vec!["content/notes/intro.md".to_string()]);
    let (html, _) = markdown_to_html("see [[intro]]", "content/notes/page.md", &index);
    assert!(html.contains("<a href=\"/notes/intro\">intro</a>"));
}

#[test]
fn escaping_matches_the_minimal_entity_set() {
    let index = empty_index();
    let code = "if a < b { say(\"it's > c\") }";
    let md = format!("```klingon\n{}\n```\n", code);
    let (html, _) = markdown_to_html(&md, "content/index.md", &index);
    assert!(html.contains(&htmlescape::encode_minimal(code)));
}
