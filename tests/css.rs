use naql::css_rule::CssRule;
use naql::definition::{DefinitionProperties, FontProperties, Src};
use naql::font_rule::FontRule;
use naql::selector::FolderType;
use naql::style_rule::StyleRule;
use naql::style_sheet::StyleSheet;

#[test]
fn rule_with_glyph_only() {
    let d = DefinitionProperties { font_character: Some("\\E001".to_string()), ..Default::default() };
    let r = StyleRule::new(".a", d);
    assert_eq!(r.to_css(), ".a{content:'\\E001'!important;}");
}

#[test]
fn rule_with_every_field() {
    let d = DefinitionProperties {
        icon_path: Some("0.svg".to_string()),
        font_character: None,
        font_color: Some("#fff".to_string()),
        font_size: Some("120%".to_string()),
        font_id: Some("f".to_string()),
        is_bundled: true,
    };
    let mut r = StyleRule::new(".a", d);
    r.selectors.push(".b".to_string());
    assert_eq!(
        r.to_css(),
        ".a,.b{content:''!important;display:inline-block;background-size:contain;background-repeat:no-repeat;height:1em;width:1em;background-image:url(0.svg);color:#fff;font-family:f;font-size:120%;}"
    );
}

#[test]
fn no_image_boilerplate_without_image() {
    let d = DefinitionProperties { font_color: Some("red".to_string()), ..Default::default() };
    let css = StyleRule::new(".a", d).to_css();
    assert_eq!(css, ".a{content:''!important;color:red;}");
}

#[test]
fn font_block() {
    let f = FontProperties {
        id: "icons".to_string(),
        src: vec![
            Src { path: "0.woff".to_string(), format: "woff".to_string() },
            Src { path: "1.ttf".to_string(), format: "truetype".to_string() },
        ],
        weight: Some("normal".to_string()),
        style: Some("italic".to_string()),
        size: None,
    };
    assert_eq!(
        FontRule(f).to_css(),
        "@font-face{font-family:'icons';src:url(0.woff)format('woff'),url(1.ttf)format('truetype');font-style:italic;font-weight:normal;}"
    );
}

#[test]
fn css_rule_delegates() {
    let d = DefinitionProperties { font_character: Some("x".to_string()), ..Default::default() };
    let r = CssRule::StyleRule(StyleRule::new(".a", d));
    assert_eq!(r.to_css(), ".a{content:'x'!important;}");
}

#[test]
fn sheet_merges_by_identity() {
    let mut sheet = StyleSheet::new("/s".to_string(), "/d".to_string());
    let x = || DefinitionProperties { font_character: Some("x".to_string()), ..Default::default() };
    let y = DefinitionProperties { font_character: Some("y".to_string()), ..Default::default() };
    sheet.insert(StyleRule::new(".a", x()));
    sheet.insert(StyleRule::new(".b", y));
    sheet.insert(StyleRule::new(".c", x()));
    assert_eq!(sheet.len(), 2);
    assert_eq!(sheet.to_css(), ".a,.c{content:'x'!important;}.b{content:'y'!important;}");
}

#[test]
fn sheet_resolves_urls() {
    let mut sheet = StyleSheet::new("/s".to_string(), "/d".to_string());
    let d = DefinitionProperties { icon_path: Some("a.png".to_string()), ..Default::default() };
    sheet.insert(StyleRule::new(".a", d));
    sheet.resolve_urls(&vec![("a.png".to_string(), "0.png".to_string())]);
    assert_eq!(sheet.rule(0).definition.icon_path.as_deref(), Some("0.png"));
}

#[test]
fn selectors_per_role() {
    assert_eq!(FolderType::Normal.selector(), ".list.collapsible.hidden>.tile[data-type='dir']>.folder:before");
    assert_eq!(FolderType::Expanded.selector(), "*[data-type='dir']>.folder:before");
    assert_eq!(FolderType::Root.selector(), ".list.collapsible.hidden>.tile[data-type='root']>.folder:before");
    assert_eq!(FolderType::RootExpanded.selector(), "*[data-type='root']>.folder:before");
    assert_eq!(
        FolderType::RootExpanded.named_selector("src"),
        "*[data-name='src'i][data-type='root']>.folder:before"
    );
}
