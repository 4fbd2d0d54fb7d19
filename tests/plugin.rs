use naql::acode::{AcodeManifest, Author};
use naql::args::BuildArgs;
use naql::path::join;
use naql::runtime::Include;

fn base() -> AcodeManifest {
    AcodeManifest {
        id: Some("a.b".to_string()),
        name: Some("Name".to_string()),
        main: Some("main.js".to_string()),
        version: Some("1.0.0".to_string()),
        readme: Some("README.md".to_string()),
        icon: Some("icon.png".to_string()),
        files: None,
        price: None,
        min_version_code: Some(955),
        author: Some(Author { name: "me".to_string(), email: None, url: None, github: None }),
        dependencies: Some(vec!["dep.one".to_string()]),
    }
}

#[test]
fn merge_takes_set_fields_and_appends_lists() {
    let mut m = base();
    let mut other = base();
    other.id = None;
    other.name = Some("Other".to_string());
    other.main = Some("other.js".to_string());
    other.price = Some(10);
    other.files = Some(vec!["x".to_string()]);
    other.dependencies = Some(vec!["dep.two".to_string()]);
    m.merge(other);
    assert_eq!(m.id.as_deref(), Some("a.b"));
    assert_eq!(m.name.as_deref(), Some("Other"));
    assert_eq!(m.main.as_deref(), Some("main.js"));
    assert_eq!(m.price, Some(10));
    assert_eq!(m.files, Some(vec!["x".to_string()]));
    assert_eq!(m.dependencies, Some(vec!["dep.one".to_string(), "dep.two".to_string()]));
}

#[test]
fn merge_makes_empty_lists() {
    let mut m = base();
    let mut other = base();
    other.dependencies = None;
    m.dependencies = None;
    m.merge(other);
    assert_eq!(m.files, Some(vec![]));
    assert_eq!(m.dependencies, Some(vec![]));
}

#[test]
fn resolve_joins_readme_and_icon() {
    let mut m = base();
    m.resolve(&"/ext".to_string());
    assert_eq!(m.readme.as_deref(), Some("/ext/README.md"));
    assert_eq!(m.icon.as_deref(), Some("/ext/icon.png"));
    assert_eq!(m.id.as_deref(), Some("a.b"));
}

#[test]
fn join_pushes_each_part() {
    assert_eq!(join(&["a".to_string(), "b".to_string(), "c.txt".to_string()]), "a/b/c.txt");
    assert_eq!(join(&["a/".to_string(), "/abs".to_string()]), "/abs");
    assert_eq!(join(&["only".to_string()]), "only");
}

#[test]
fn include_default_is_nothing() {
    assert!(Include { icon_themes: false }.is_default());
    assert!(!Include { icon_themes: true }.is_default());
}

#[test]
fn output_path_joins_dir_and_file() {
    let a = BuildArgs {
        path: ".".to_string(),
        outfile: "dist.zip".to_string(),
        outdir: "./".to_string(),
        manifest: None,
    };
    assert_eq!(a.output_path(), "./dist.zip");
}
