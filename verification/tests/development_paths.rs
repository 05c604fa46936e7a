use denial::development_paths::{
    development_root, join_path, resolve_development_paths, user_directory, vm_service_path,
    DevelopmentOverrides,
};

fn no_overrides() -> DevelopmentOverrides {
    DevelopmentOverrides {
        development_root: None,
        flutter_sdk_root: None,
        debug_engine: None,
        profile_engine: None,
        build_root: None,
        debug_bundle: None,
        profile_bundle: None,
        pub_cache: None,
    }
}

#[test]
fn paths_join_like_path_join() {
    assert_eq!(join_path(b"/a", b"b"), b"/a/b".to_vec());
    assert_eq!(join_path(b"/a/", b"b"), b"/a/b".to_vec());
    assert_eq!(join_path(b"", b"b"), b"b".to_vec());
    assert_eq!(join_path(b"/a", b"/b"), b"/b".to_vec());
}

#[test]
fn user_directories_prefer_absolute_xdg() {
    assert_eq!(user_directory(Some(b"/x/cache"), Some(b"/home/u"), ".cache"), Some(b"/x/cache".to_vec()));
    assert_eq!(user_directory(Some(b"rel"), Some(b"/home/u"), ".cache"), Some(b"/home/u/.cache".to_vec()));
    assert_eq!(user_directory(None, Some(b"home"), ".config"), None);
    assert_eq!(vm_service_path(Some(b"/run/user/1")), Some(b"/run/user/1/denial/flutter-vm-service.json".to_vec()));
    assert_eq!(vm_service_path(Some(b"run")), None);
}

#[test]
fn installed_package_supplies_the_defaults() {
    let overrides = no_overrides();
    assert_eq!(development_root(&overrides), b"/usr/lib/denial/ui-development".to_vec());
    let paths = resolve_development_paths(Some(b"/home/u/.cache"), &overrides, true, true).unwrap();
    assert_eq!(paths.flutter_root, b"/usr/lib/denial/ui-development/flutter".to_vec());
    assert_eq!(paths.engine, b"/usr/lib/denial/ui-development/lib/libflutter_engine.so".to_vec());
    assert_eq!(paths.icu, b"/usr/lib/denial/ui-development/data/icudtl.dat".to_vec());
    assert_eq!(paths.build_root, b"/home/u/.cache/denial/ui-development".to_vec());
    assert_eq!(paths.bundle, b"/home/u/.cache/denial/ui-development/debug/bundle".to_vec());
    assert_eq!(paths.flutter_launcher, b"/usr/lib/denial/ui-development/flutter/bin/flutter".to_vec());
}

#[test]
fn cache_supplies_defaults_without_the_package() {
    let mut overrides = no_overrides();
    overrides.debug_bundle = Some(b"/tmp/bundle".to_vec());
    let paths = resolve_development_paths(Some(b"/c"), &overrides, false, true).unwrap();
    assert_eq!(paths.flutter_root, b"/c/denial/pc-dependencies/flutter".to_vec());
    assert_eq!(
        paths.icu,
        b"/c/denial/pc-dependencies/flutter/bin/cache/artifacts/engine/linux-x64/icudtl.dat".to_vec()
    );
    assert_eq!(paths.bundle, b"/tmp/bundle".to_vec());
}

#[test]
fn relative_paths_and_missing_cache_are_refused() {
    assert_eq!(
        resolve_development_paths(None, &no_overrides(), true, true).unwrap_err().message,
        "HOME or an absolute XDG_CACHE_HOME is required"
    );
    let mut overrides = no_overrides();
    overrides.profile_engine = Some(b"engine.so".to_vec());
    assert_eq!(
        resolve_development_paths(Some(b"/c"), &overrides, true, false).unwrap_err().message,
        "profile engine path must be absolute: engine.so"
    );
}
