use sekiei::config::{default_quality, Config, CustomTheme, GeneralConfig, Giscus, Images, ThemeConfig, ThemeType};

fn base_config(images: Images, giscus: Giscus) -> Config {
    Config {
        theme: ThemeConfig {
            theme_type: ThemeType::Preset,
            preset: Some("catppuccin".to_string()),
            custom: None::<CustomTheme>,
        },
        general: GeneralConfig {
            base_url: "https://example.org".to_string(),
            title: "A site".to_string(),
            description: "About things".to_string(),
        },
        images,
        giscus,
    }
}

#[test]
fn theme_type_names() {
    assert_eq!(ThemeType::Custom.as_str(), "custom");
    assert_eq!(ThemeType::Preset.as_str(), "preset");
}

#[test]
fn default_quality_is_full() {
    assert_eq!(default_quality(), 100);
}

#[test]
fn images_quality_and_webp_conflict() {
    let bad = Images { quality: 80, compress_to_webp: true };
    assert_eq!(
        bad.validate().unwrap_err(),
        "Fields 'quality' and 'compress_to_webp' cannot be set at the same time in [images]"
    );
    assert!(Images { quality: 80, compress_to_webp: false }.validate().is_ok());
    assert!(Images { quality: 100, compress_to_webp: true }.validate().is_ok());
}

#[test]
fn giscus_route_lists_are_exclusive() {
    let mut g = Giscus::default();
    g.disabled_routes = vec!["a".to_string()];
    g.enabled_routes = vec!["b".to_string()];
    assert_eq!(
        g.validate().unwrap_err(),
        "Giscus configuration error: 'disabled_routes' and 'enabled_routes' cannot both be specified at the same time"
    );
}

#[test]
fn giscus_enable_requires_fields() {
    let mut g = Giscus::default();
    g.enable = true;
    assert_eq!(
        g.validate().unwrap_err(),
        "Giscus configuration error: 'repo' is required when enable = true"
    );
    g.repo = Some("o/r".to_string());
    assert_eq!(
        g.validate().unwrap_err(),
        "Giscus configuration error: 'repo_id' is required when enable = true"
    );
    g.repo_id = Some("id".to_string());
    assert_eq!(
        g.validate().unwrap_err(),
        "Giscus configuration error: 'category' is required when enable = true"
    );
    g.category = Some("c".to_string());
    assert_eq!(
        g.validate().unwrap_err(),
        "Giscus configuration error: 'category_id' is required when enable = true"
    );
    g.category_id = Some("cid".to_string());
    assert!(g.validate().is_ok());
}

#[test]
fn giscus_disabled_widget_never_shows() {
    let g = Giscus::default();
    assert!(!g.is_enabled_for_route("/blog/post"));
}

#[test]
fn giscus_enabled_routes_allow_list() {
    let mut g = Giscus::default();
    g.enable = true;
    g.enabled_routes = vec!["blog/*".to_string()];
    assert!(g.is_enabled_for_route("blog/post"));
    assert!(!g.is_enabled_for_route("docs/page"));
}

#[test]
fn giscus_disabled_routes_deny_list() {
    let mut g = Giscus::default();
    g.enable = true;
    g.disabled_routes = vec!["drafts/*".to_string()];
    assert!(!g.is_enabled_for_route("drafts/wip"));
    assert!(g.is_enabled_for_route("blog/post"));
}

#[test]
fn giscus_question_mark_matches_one_character() {
    let mut g = Giscus::default();
    g.enable = true;
    g.enabled_routes = vec!["p?st".to_string()];
    assert!(g.is_enabled_for_route("post"));
    assert!(!g.is_enabled_for_route("poost"));
}

#[test]
fn config_validate_reports_first_error() {
    let bad_images = base_config(
        Images { quality: 10, compress_to_webp: true },
        Giscus::default(),
    );
    assert!(bad_images.validate().unwrap_err().contains("[images]"));
    let ok = base_config(Images { quality: 100, compress_to_webp: false }, Giscus::default());
    assert!(ok.validate().is_ok());
}

#[test]
fn preset_themes_cover_the_known_names() {
    let presets = sekiei::config::get_preset_themes();
    assert_eq!(presets.len(), 14);
    for name in [
        "catppuccin", "gruvbox", "nord", "onedark", "rosepine", "dracula", "tokyonight",
        "monokai", "obsidian", "everforest", "solarized", "kanagawa", "oxocarbon", "base16",
    ] {
        let (light, dark) = presets.get(name).expect(name);
        assert_eq!(light.len(), 29);
        assert_eq!(dark.len(), 29);
        assert!(light.contains_key("background_color"));
        assert!(dark.contains_key("highlight_del"));
    }
    assert_eq!(
        presets.get("catppuccin").unwrap().1.get("background_color").unwrap(),
        "#1e1e2e"
    );
}

#[test]
fn glob_matching_edge_cases() {
    // Whole-string semantics with star backtracking, as the matcher's
    // stated relation demands.
    let mut g = Giscus::default();
    g.enable = true;
    g.enabled_routes = vec!["a*b*c".to_string()];
    assert!(g.is_enabled_for_route("aXbYbZc"));
    assert!(!g.is_enabled_for_route("aXbYbZ"));
    g.enabled_routes = vec!["*".to_string()];
    assert!(g.is_enabled_for_route(""));
    assert!(g.is_enabled_for_route("anything"));
    g.enabled_routes = vec!["".to_string()];
    assert!(g.is_enabled_for_route(""));
    assert!(!g.is_enabled_for_route("x"));
    g.enabled_routes = vec!["*d".to_string()];
    assert!(!g.is_enabled_for_route("cat"));
    assert!(g.is_enabled_for_route("cd"));
}
