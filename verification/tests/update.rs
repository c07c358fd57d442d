use ltbrfm_player::update::{
    announce, is_newer, on_download_finished, on_installed, open_download_page, open_external,
    published_version, supports_in_app_install, tidy_version, AfterInstall, Install, Platform,
    Progress,
};

#[test]
fn version_comparison() {
    assert!(is_newer("0.1.2", "0.1.1"));
    assert!(is_newer("0.2.0", "0.1.9"));
    assert!(is_newer("1.0.0", "0.9.9"));
    assert!(is_newer("v0.1.2", "0.1.1")); // tag-style prefix
    assert!(is_newer("0.1.1.1", "0.1.1")); // longer wins on extra segment
    assert!(!is_newer("0.1.1", "0.1.1"));
    assert!(!is_newer("0.1.0", "0.1.1"));
    assert!(!is_newer("0.0.9", "0.1.0"));
    assert!(!is_newer("garbage", "0.1.1")); // parses as 0 -> not newer
}

#[test]
fn in_app_install_support() {
    // On macOS and Windows the install can always replace itself; on Linux
    // only under an AppImage runtime.
    let linux = true;
    assert!(!supports_in_app_install(linux, false));
    assert!(supports_in_app_install(!linux, false));
}

#[test]
fn an_appimage_replaces_itself() {
    assert!(supports_in_app_install(true, true));
    assert!(!supports_in_app_install(true, false));
    assert!(supports_in_app_install(false, false));
}

#[test]
fn zeros_at_the_end_of_a_version_do_not_count() {
    assert!(!is_newer("1.0.0", "1"));
    assert!(!is_newer("1", "1.0.0"));
    assert!(is_newer("1. 2", "1.1"));
}

#[test]
fn of_two_versions_one_is_newer_or_they_agree() {
    for (a, b) in [("1.2", "1.10"), ("0.9", "0.10"), ("2", "1.9.9")] {
        assert!(is_newer(a, b) != is_newer(b, a));
    }
}

#[test]
fn newer_than_newer_is_newer() {
    let versions = ["0.9", "1", "1.0.1", "1.2", "1.10", "v2"];
    for i in 0..versions.len() {
        for j in 0..versions.len() {
            assert_eq!(is_newer(versions[i], versions[j]), i > j);
        }
    }
}

#[test]
fn the_release_api_names_a_version() {
    assert_eq!(published_version("{\"version\":\" v1.2.3 \"}").unwrap(), "1.2.3");
    assert_eq!(published_version("{\"a\":1,\"version\":\"2.0\"}").unwrap(), "2.0");
    assert!(published_version("{\"version\":3}").is_none());
    assert!(published_version("[\"version\"]").is_none());
    assert!(published_version("not json").is_none());
    assert!(published_version("{}").is_none());
}

#[test]
fn versions_are_tidied() {
    assert_eq!(tidy_version("  vv1.0 "), "1.0");
}

#[test]
fn only_a_newer_version_is_announced() {
    assert_eq!(announce(Some("1.1".to_string()), "1.0"), Some("1.1".to_string()));
    assert_eq!(announce(Some("1.0".to_string()), "1.0"), None);
    assert_eq!(announce(None, "1.0"), None);
}

#[test]
fn downloads_add_up() {
    let mut p = Progress::new();
    let s = p.on_chunk(10, Some(30));
    assert_eq!((s.phase, s.downloaded, s.total), ("downloading", 10, Some(30)));
    let s = p.on_chunk(5, None);
    assert_eq!((s.phase, s.downloaded, s.total), ("downloading", 15, None));
    assert_eq!(p.downloaded(), 15);
    let s = on_download_finished();
    assert_eq!((s.phase, s.downloaded, s.total), ("installing", 0, None));
}

#[test]
fn a_failed_install_is_dismissed() {
    match on_installed(Install::Failed) {
        Some(AfterInstall::Show(s)) => {
            assert_eq!((s.phase, s.downloaded, s.total), ("dismiss", 0, None))
        }
        other => panic!("{other:?}"),
    }
}

#[test]
fn a_new_version_is_restarted_into() {
    assert!(matches!(on_installed(Install::Installed), Some(AfterInstall::Restart)));
}

#[test]
fn finding_nothing_newer_shows_nothing() {
    assert!(on_installed(Install::NothingNewer).is_none());
}

#[test]
fn a_leading_v_or_a_trailing_zero_changes_no_comparison() {
    for a in ["1.2", "0.9.9", "2", "x"] {
        for b in ["1.2", "1.2.1", "0", "v3"] {
            let (with_v, with_zero) = (format!("v{a}"), format!("{a}.0"));
            assert_eq!(is_newer(&with_v, b), is_newer(a, b));
            assert_eq!(is_newer(b, &with_v), is_newer(b, a));
            assert_eq!(is_newer(&with_zero, b), is_newer(a, b));
            assert_eq!(is_newer(b, &with_zero), is_newer(b, a));
        }
    }
}

#[test]
fn urls_open_in_the_system_browser() {
    let l = open_external(Platform::Linux, "u");
    assert_eq!((l.program, l.args), ("xdg-open", vec!["u".to_string()]));
    let l = open_external(Platform::Macos, "u");
    assert_eq!((l.program, l.args), ("open", vec!["u".to_string()]));
    let l = open_external(Platform::Windows, "u");
    assert_eq!(l.program, "cmd");
    assert_eq!(l.args, vec!["/C", "start", "", "u"]);
    let l = open_download_page(Platform::Linux);
    assert_eq!(l.args, vec!["https://www.ltbr.fm/player#download"]);
}
