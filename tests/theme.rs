use naql::bundle::BundleCache;
use naql::definition::{DefinitionProperties, FontProperties, Src};
use naql::manifest::IconThemeManifest;
use naql::parser::{IconThemeParser, Parser, ThemeOutput};

fn glyph(c: &str) -> DefinitionProperties {
    DefinitionProperties { font_character: Some(c.to_string()), ..Default::default() }
}

fn table(pairs: &[(&str, &str)]) -> Option<Vec<(String, String)>> {
    Some(pairs.iter().map(|(a, b)| (a.to_string(), b.to_string())).collect())
}

fn run(manifest: IconThemeManifest, resolved: Vec<(String, Option<String>)>) -> ThemeOutput {
    let mut parser =
        IconThemeParser::new("theme".to_string(), "/src".to_string(), "/build".to_string(), manifest);
    parser.set_resolved(resolved);
    let mut cache = BundleCache::new();
    parser.parse(&mut cache).ok().expect("conversion succeeds")
}

#[test]
fn identical_definitions_share_one_rule() {
    let mut m = IconThemeManifest::default();
    m.icon_definitions = vec![("a".to_string(), glyph("X")), ("b".to_string(), glyph("X"))];
    m.file = Some("a".to_string());
    m.folder = Some("b".to_string());
    let out = run(m, vec![]);
    assert_eq!(out.manifest.definitions.len(), 2);
    assert_eq!(out.sheet.len(), 1);
    let rule = out.sheet.rule(0);
    assert!(rule.selectors.contains(&".file_type_default:before".to_string()));
    assert!(rule
        .selectors
        .contains(&".list.collapsible.hidden>.tile[data-type='dir']>.folder:before".to_string()));
    assert_eq!(out.css.matches('{').count(), 1);
    assert!(out.css.contains("{content:'X'!important;}"));
}

#[test]
fn folder_name_selector_joins_definition_rule() {
    let mut m = IconThemeManifest::default();
    m.icon_definitions = vec![("b".to_string(), glyph("B"))];
    m.folder = Some("b".to_string());
    m.folder_names = table(&[("src", "b")]);
    let out = run(m, vec![]);
    assert_eq!(out.sheet.len(), 1);
    let rule = out.sheet.rule(0);
    assert!(rule.selectors.contains(
        &".list.collapsible.hidden>.tile[data-name='src'i][data-type='dir']>.folder:before"
            .to_string()
    ));
}

#[test]
fn expanded_root_follows_root_when_unset() {
    let mut m = IconThemeManifest::default();
    m.icon_definitions = vec![
        ("f".to_string(), glyph("F")),
        ("fe".to_string(), glyph("E")),
        ("r".to_string(), glyph("R")),
    ];
    m.folder = Some("f".to_string());
    m.folder_expanded = Some("fe".to_string());
    m.root_folder = Some("r".to_string());
    let parser = IconThemeParser::new(String::new(), String::new(), String::new(), m);
    let roles = parser.resolve_roles();
    assert_eq!(roles.root_folder, "r");
    assert_eq!(roles.root_folder_expanded, "r");
    assert_eq!(roles.folder_expanded, "fe");
}

#[test]
fn expanded_root_follows_expanded_folder_without_root() {
    let mut m = IconThemeManifest::default();
    m.folder = Some("f".to_string());
    m.folder_expanded = Some("fe".to_string());
    let parser = IconThemeParser::new(String::new(), String::new(), String::new(), m);
    let roles = parser.resolve_roles();
    assert_eq!(roles.file, "");
    assert_eq!(roles.root_folder, "f");
    assert_eq!(roles.root_folder_expanded, "fe");
}

#[test]
fn roles_naming_missing_definitions_are_pruned() {
    let mut m = IconThemeManifest::default();
    m.icon_definitions = vec![("f".to_string(), glyph("F"))];
    m.file = Some("nope".to_string());
    m.folder = Some("f".to_string());
    let mut parser = IconThemeParser::new(String::new(), String::new(), String::new(), m);
    parser.prune_roles();
    let roles = parser.resolve_roles();
    assert_eq!(roles.file, "");
    assert_eq!(roles.folder, "f");
}

#[test]
fn compaction_keeps_only_referenced_definitions_in_order() {
    let mut m = IconThemeManifest::default();
    for i in 0..100 {
        m.icon_definitions.push((format!("d{i}"), glyph(&format!("{i}"))));
    }
    m.file = Some("d10".to_string());
    m.folder = Some("d50".to_string());
    m.file_extensions = table(&[("rs", "d70"), ("zz", "missing")]);
    m.file_names = table(&[("Cargo.toml", "d50")]);
    let out = run(m, vec![]);
    assert_eq!(out.manifest.definitions.len(), 3);
    assert_eq!(out.manifest.definitions[0].font_character.as_deref(), Some("10"));
    assert_eq!(out.manifest.definitions[1].font_character.as_deref(), Some("50"));
    assert_eq!(out.manifest.definitions[2].font_character.as_deref(), Some("70"));
    assert_eq!(out.manifest.file_extensions, Some(vec![("rs".to_string(), 2)]));
    assert_eq!(out.manifest.file_names, Some(vec![("Cargo.toml".to_string(), 1)]));
    assert_eq!(out.manifest.language_ids, None);
}

#[test]
fn images_and_fonts_are_bundled_once() {
    let mut m = IconThemeManifest::default();
    let img = DefinitionProperties { icon_path: Some("icons/a.svg".to_string()), ..Default::default() };
    let same = DefinitionProperties {
        icon_path: Some("icons/a.svg".to_string()),
        font_color: Some("red".to_string()),
        ..Default::default()
    };
    m.icon_definitions = vec![("a".to_string(), img), ("b".to_string(), same)];
    m.file = Some("a".to_string());
    m.folder = Some("b".to_string());
    m.fonts = Some(vec![FontProperties {
        id: "f".to_string(),
        src: vec![Src { path: "fonts/f".to_string(), format: "woff".to_string() }],
        weight: Some("bold".to_string()),
        style: None,
        size: Some("100%".to_string()),
    }]);
    let resolved = vec![
        ("icons/a.svg".to_string(), Some("/abs/icons/a.svg".to_string())),
        ("fonts/f".to_string(), Some("/abs/fonts/f".to_string())),
    ];
    let out = run(m, resolved);
    assert_eq!(out.copies.len(), 2);
    assert_eq!(out.copies[0], ("/abs/icons/a.svg".to_string(), "0.svg".to_string()));
    assert_eq!(out.copies[1], ("/abs/fonts/f".to_string(), "1.jpg".to_string()));
    assert_eq!(out.manifest.definitions[0].icon_path.as_deref(), Some("0.svg"));
    assert_eq!(out.manifest.definitions[1].icon_path.as_deref(), Some("0.svg"));
    assert!(out.css.starts_with(
        "@font-face{font-family:'f';src:url(1.jpg)format('woff');font-size:100%;font-weight:bold;}"
    ));
    assert!(out.css.contains("background-image:url(0.svg);"));
    assert_eq!(out.sheet.len(), 2);
    assert_eq!(out.css_path, "/build/dist/assets/theme.iconTheme.css");
    assert_eq!(out.manifest_path, "/build/src/iconThemes/theme.json");
}

#[test]
fn missing_asset_fails_the_theme() {
    let mut m = IconThemeManifest::default();
    let img = DefinitionProperties { icon_path: Some("gone.png".to_string()), ..Default::default() };
    m.icon_definitions = vec![("a".to_string(), img)];
    m.file = Some("a".to_string());
    let mut parser = IconThemeParser::new(String::new(), "/src".to_string(), "/b".to_string(), m);
    parser.set_resolved(vec![("gone.png".to_string(), None)]);
    let mut cache = BundleCache::new();
    let r = parser.parse(&mut cache);
    assert!(matches!(r, Err(naql::bundle::BundleError::MissingSourceFile(ref p)) if p == "gone.png"));
    assert_eq!(cache.len(), 0);
}

#[test]
fn unreferenced_images_are_not_bundled() {
    let mut m = IconThemeManifest::default();
    let img = DefinitionProperties { icon_path: Some("gone.png".to_string()), ..Default::default() };
    m.icon_definitions = vec![("a".to_string(), img), ("b".to_string(), glyph("B"))];
    m.file = Some("b".to_string());
    let out = run(m, vec![]);
    assert!(out.copies.is_empty());
    assert_eq!(out.manifest.definitions.len(), 1);
}

#[test]
fn asset_paths_list_images_then_faces() {
    let mut m = IconThemeManifest::default();
    let img = DefinitionProperties { icon_path: Some("i.png".to_string()), ..Default::default() };
    m.icon_definitions = vec![("a".to_string(), img), ("b".to_string(), glyph("B"))];
    m.fonts = Some(vec![FontProperties {
        id: "f".to_string(),
        src: vec![Src { path: "f.woff".to_string(), format: "woff".to_string() }],
        ..Default::default()
    }]);
    let parser = IconThemeParser::new(String::new(), "/root/theme".to_string(), String::new(), m);
    assert_eq!(parser.asset_paths(), vec!["i.png".to_string(), "f.woff".to_string()]);
    assert_eq!(parser.source_path(&"i.png".to_string()), "/root/theme/i.png");
}

#[test]
fn expanded_root_rule_goes_to_root_definition() {
    let mut m = IconThemeManifest::default();
    m.icon_definitions = vec![
        ("f".to_string(), glyph("1")),
        ("fe".to_string(), glyph("2")),
        ("r".to_string(), glyph("3")),
    ];
    m.folder = Some("f".to_string());
    m.folder_expanded = Some("fe".to_string());
    m.root_folder = Some("r".to_string());
    let out = run(m, vec![]);
    assert_eq!(out.sheet.len(), 3);
    let mut seen = 0;
    for i in 0..out.sheet.len() {
        let rule = out.sheet.rule(i);
        match rule.definition.font_character.as_deref() {
            Some("3") => {
                seen += 1;
                assert_eq!(
                    rule.selectors,
                    vec![
                        ".list.collapsible.hidden>.tile[data-type='root']>.folder:before".to_string(),
                        "*[data-type='root']>.folder:before".to_string(),
                    ]
                );
            }
            Some("2") => {
                seen += 1;
                assert_eq!(rule.selectors, vec!["*[data-type='dir']>.folder:before".to_string()]);
            }
            _ => {}
        }
    }
    assert_eq!(seen, 2);
}

#[test]
fn dangling_role_is_cleared_then_falls_back() {
    let mut m = IconThemeManifest::default();
    m.icon_definitions = vec![("f".to_string(), glyph("1"))];
    m.folder = Some("f".to_string());
    m.folder_expanded = Some("missing".to_string());
    let out = run(m, vec![]);
    assert_eq!(out.sheet.len(), 1);
    assert_eq!(
        out.sheet.rule(0).selectors,
        vec![
            ".list.collapsible.hidden>.tile[data-type='dir']>.folder:before".to_string(),
            "*[data-type='dir']>.folder:before".to_string(),
            ".list.collapsible.hidden>.tile[data-type='root']>.folder:before".to_string(),
            "*[data-type='root']>.folder:before".to_string(),
        ]
    );
}

#[test]
fn folder_name_only_theme_renders_one_block() {
    let mut m = IconThemeManifest::default();
    m.icon_definitions = vec![("b".to_string(), glyph("B"))];
    m.folder_names = table(&[("src", "b")]);
    let out = run(m, vec![]);
    assert_eq!(
        out.css,
        ".list.collapsible.hidden>.tile[data-name='src'i][data-type='dir']>.folder:before{content:'B'!important;}"
    );
}
