use collect_tui::config::{config_path_in, join_path, resolve_path, resolve_path_with_home, Config};

#[test]
fn config_from_current_sets_every_entry() {
    let c = Config::from_current("/tmp/dl", Some(2024), 3);
    assert_eq!(c.download_path.as_deref(), Some("/tmp/dl"));
    assert_eq!(c.year, Some(2024));
    assert_eq!(c.concurrency, Some(3));
    let d = Config::default();
    assert!(d.download_path.is_none() && d.year.is_none() && d.concurrency.is_none());
}

#[test]
fn join_paths_like_pathbuf() {
    for (a, b) in [("/home/u", "x"), ("/home/u/", "x"), ("", "x"), ("/a", "/b"), ("/home/u", ""), ("rel", "y/z")] {
        let expected = std::path::Path::new(a).join(b).to_string_lossy().into_owned();
        assert_eq!(join_path(a, b), expected);
    }
}

#[test]
fn tilde_resolves_against_home() {
    let home = Some("/home/u".to_string());
    assert_eq!(resolve_path_with_home("~/Downloads", home.clone()), "/home/u/Downloads");
    assert_eq!(resolve_path_with_home("~", home.clone()), "/home/u/");
    assert_eq!(resolve_path_with_home("~x", home.clone()), "/home/u/x");
    assert_eq!(resolve_path_with_home("~//abs", home.clone()), "/abs");
    assert_eq!(resolve_path_with_home("/data", home.clone()), "/data");
    assert_eq!(resolve_path_with_home("~/Downloads", None), "~/Downloads");
}

#[test]
fn resolve_path_keeps_plain_paths() {
    assert_eq!(resolve_path("/var/tmp"), "/var/tmp");
    assert_eq!(resolve_path("relative/dir"), "relative/dir");
    let r = resolve_path("~/slides");
    assert!(r == "~/slides" || r.ends_with("/slides"));
}

#[test]
fn settings_file_location() {
    assert_eq!(config_path_in(Some("/home/u/.config".to_string())), Some("/home/u/.config/moocs-collect/settings.json".to_string()));
    assert_eq!(config_path_in(None), None);
}
