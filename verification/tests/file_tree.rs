use sekiei::file_tree::{
    asset_tree_path, document_tree_path, file_tree_document_name, generate_file_tree_html,
    render_file_node, FileNode,
};
use sekiei::frontmatter::extract_frontmatter;
use sekiei::listing::{asset_listing_item, document_listing_item};

fn file(name: &str, path: &str) -> FileNode {
    FileNode {
        name: name.to_string(),
        path: path.to_string(),
        is_dir: false,
        children: Vec::new(),
    }
}

#[test]
fn file_node_renders_link_and_icon() {
    let html = render_file_node(&file("Intro", "notes/intro"), "/other");
    assert!(html.contains("<a href=\"/notes/intro\" class=\"file-link \">"));
    assert!(html.contains("ph ph-file"));
    assert!(html.contains("Intro"));
}

#[test]
fn current_file_is_bold() {
    let html = render_file_node(&file("Intro", "notes/intro"), "notes/intro");
    assert!(html.contains("class=\"file-link font-bold\""));
}

#[test]
fn image_files_get_image_icon() {
    let html = render_file_node(&file("pic", "static/pic.webp"), "/");
    assert!(html.contains("ph ph-image filetree-image"));
}

#[test]
fn directory_on_route_is_expanded() {
    let dir = FileNode {
        name: "notes".to_string(),
        path: "notes".to_string(),
        is_dir: true,
        children: vec![file("Intro", "notes/intro")],
    };
    let html = render_file_node(&dir, "/notes/intro");
    assert!(html.contains("rotate-90"));
    assert!(html.contains("<ul class=\"folder-contents  ml-4\">"));
    let off_route = render_file_node(&dir, "/elsewhere");
    assert!(off_route.contains("<ul class=\"folder-contents hidden ml-4\">"));
}

#[test]
fn whole_tree_is_wrapped_in_list() {
    let nodes = vec![file("A", "a"), file("B", "b")];
    let html = generate_file_tree_html(&nodes, "/");
    assert!(html.starts_with("<div class=\"file-tree\">\n<ul>\n"));
    assert!(html.ends_with("</ul>\n</div>"));
    assert!(html.contains(">A\n</a>") && html.contains(">B\n</a>"));
}

#[test]
fn listing_items_for_documents_and_assets() {
    let (fm, _) = extract_frontmatter("---\ntitle: Intro\ndate: 2024-01-01\n---\nbody").unwrap();
    let d = document_listing_item("notes/intro", &fm);
    assert_eq!(d.name, "Intro");
    assert_eq!(d.url, "/notes/intro");
    assert_eq!(d.date, "2024-01-01");
    assert!(d.description.is_none());
    let a = asset_listing_item("assets/pic one.png", "pic one.png", 1700000000);
    assert_eq!(a.url, "/static/assets-pic-u0020one.png");
    assert_eq!(a.date, "1700000000");
    assert_eq!(a.name, "pic one.png");
}

#[test]
fn document_entry_paths() {
    assert_eq!(document_tree_path("index.md", true), "");
    assert_eq!(document_tree_path("index.md", false), "index");
    assert_eq!(document_tree_path("notes/intro.md", false), "notes/intro");
    assert_eq!(document_tree_path("plain.txt", false), "plain.txt");
}

#[test]
fn asset_entry_paths() {
    assert_eq!(asset_tree_path("assets/pic.png", false), "static/assets-pic.png");
    assert_eq!(asset_tree_path("assets/pic.png", true), "static/assets-pic.webp");
    assert_eq!(asset_tree_path("assets/photo.jpeg", true), "static/assets-photo.webp");
    assert_eq!(asset_tree_path("docs/file.pdf", true), "static/docs-file.pdf");
}

#[test]
fn document_entry_names() {
    let doc = "---\ntitle: A Nice Page\ndate: 2024-01-01\n---\nbody";
    assert_eq!(file_tree_document_name(doc, "fallback"), "A Nice Page");
    assert_eq!(file_tree_document_name("no frontmatter", "fallback"), "fallback");
    assert_eq!(
        file_tree_document_name("---\ndate: 2024-01-01\n---\nbody", "fallback"),
        "fallback"
    );
    assert_eq!(file_tree_document_name("---\ntitle:\n---\n", "fallback"), "fallback");
}
