use naql::bundle::{bundle, clear_bundle_cache, bundle_all, BundleCache, BundleError};

#[test]
fn same_source_twice_gives_same_path_and_one_copy() {
    let mut cache = BundleCache::new();
    let first = bundle(&mut cache, &"a/x.png".to_string(), Some("/abs/x.png".to_string()))
        .ok()
        .unwrap();
    let second = bundle(&mut cache, &"./a/x.png".to_string(), Some("/abs/x.png".to_string()))
        .ok()
        .unwrap();
    assert_eq!(first.path, "0.png");
    assert_eq!(second.path, "0.png");
    assert_eq!(first.copy_from.as_deref(), Some("/abs/x.png"));
    assert_eq!(second.copy_from, None);
    assert_eq!(cache.len(), 1);
}

#[test]
fn missing_source_fails_and_writes_nothing() {
    let mut cache = BundleCache::new();
    let r = bundle(&mut cache, &"nope.png".to_string(), None);
    assert!(matches!(r, Err(BundleError::MissingSourceFile(ref p)) if p == "nope.png"));
    assert_eq!(cache.len(), 0);
}

#[test]
fn names_count_in_base_36_and_default_to_jpg() {
    let mut cache = BundleCache::new();
    let mut last = String::new();
    for i in 0..37 {
        let b = bundle(&mut cache, &format!("f{i}"), Some(format!("/abs/f{i}"))).ok().unwrap();
        last = b.path;
        if i == 35 {
            assert_eq!(last, "z.jpg");
        }
    }
    assert_eq!(last, "10.jpg");
    let b = bundle(&mut cache, &"x.tar.gz".to_string(), Some("/abs/x".to_string())).ok().unwrap();
    assert_eq!(b.path, "11.gz");
}

#[test]
fn clearing_restarts_the_counter() {
    let mut cache = BundleCache::new();
    bundle(&mut cache, &"a.svg".to_string(), Some("/a.svg".to_string())).ok().unwrap();
    bundle(&mut cache, &"b.svg".to_string(), Some("/b.svg".to_string())).ok().unwrap();
    clear_bundle_cache(&mut cache);
    assert_eq!(cache.len(), 0);
    let b = bundle(&mut cache, &"b.svg".to_string(), Some("/b.svg".to_string())).ok().unwrap();
    assert_eq!(b.path, "0.svg");
    assert!(b.copy_from.is_some());
}

#[test]
fn batch_stops_at_first_missing() {
    let mut cache = BundleCache::new();
    let reqs = vec![
        ("a.png".to_string(), Some("/a.png".to_string())),
        ("b.png".to_string(), None),
        ("c.png".to_string(), Some("/c.png".to_string())),
    ];
    assert!(bundle_all(&mut cache, &reqs).is_err());
    assert_eq!(cache.len(), 1);
}

#[test]
fn batch_maps_each_request() {
    let mut cache = BundleCache::new();
    let reqs = vec![
        ("a.png".to_string(), Some("/a.png".to_string())),
        ("b.png".to_string(), Some("/a.png".to_string())),
    ];
    let (m, c) = bundle_all(&mut cache, &reqs).ok().unwrap();
    assert_eq!(m, vec![("a.png".to_string(), "0.png".to_string()), ("b.png".to_string(), "0.png".to_string())]);
    assert_eq!(c, vec![("/a.png".to_string(), "0.png".to_string())]);
}

#[test]
fn different_sources_get_different_paths() {
    let mut cache = BundleCache::new();
    let a = bundle(&mut cache, &"a.png".to_string(), Some("/a.png".to_string())).ok().unwrap();
    let b = bundle(&mut cache, &"b.png".to_string(), Some("/b.png".to_string())).ok().unwrap();
    assert_ne!(a.path, b.path);
    assert_eq!(cache.len(), 2);
}
