use gh_app_installer::app::{App, AppStatus, StatusKind};
use gh_app_installer::install::{self_update_verdict, SelfUpdateVerdict};
use gh_app_installer::version::{extract_version_from_string, is_newer_version, needs_update};

fn app(name: &str) -> App {
    App {
        name: name.to_string(),
        bin: name.to_string(),
        description: None,
        repo: None,
        install_command: None,
        update_command: None,
        version_command: None,
    }
}

#[test]
fn three_part_token_preferred_over_two_part() {
    assert_eq!(extract_version_from_string("v2.3.4 (build 2.3)"), Some("2.3.4".to_string()));
}

#[test]
fn four_part_token_is_kept_whole() {
    assert_eq!(extract_version_from_string("tool 1.2.3.4 release"), Some("1.2.3.4".to_string()));
}

#[test]
fn two_part_fallback() {
    assert_eq!(extract_version_from_string("jq-1.7"), Some("1.7".to_string()));
}

#[test]
fn no_digits_gives_nothing() {
    assert_eq!(extract_version_from_string("no version here"), None);
    assert_eq!(extract_version_from_string(""), None);
}

#[test]
fn version_word_and_v_prefix() {
    assert_eq!(extract_version_from_string("ripgrep version 14.1.0"), Some("14.1.0".to_string()));
    assert_eq!(extract_version_from_string("tag v0.10.2"), Some("0.10.2".to_string()));
}

#[test]
fn long_digit_runs_are_never_components() {
    assert_eq!(extract_version_from_string("build 20240101.1.2"), Some("1.2".to_string()));
    assert_eq!(extract_version_from_string("123456.1.2"), Some("1.2".to_string()));
    assert_eq!(extract_version_from_string("1.2.3456789"), Some("1.2".to_string()));
    assert_eq!(extract_version_from_string("id 1234567.7654321"), None);
    assert_eq!(extract_version_from_string("1.2.3.123456"), Some("1.2.3".to_string()));
    assert_eq!(extract_version_from_string("99999.1.0"), Some("99999.1.0".to_string()));
}

#[test]
fn unicode_decimal_digits() {
    assert_eq!(extract_version_from_string("نسخه ١.٢.٣"), Some("١.٢.٣".to_string()));
    assert_eq!(extract_version_from_string("v١.٢"), Some("١.٢".to_string()));
    assert_eq!(extract_version_from_string("١1.2.3"), Some("١1.2.3".to_string()));
    assert_eq!(extract_version_from_string("٠٠٠٠٠٠.1.2"), Some("1.2".to_string()));
    assert_eq!(extract_version_from_string("release ２.０.１"), Some("２.０.１".to_string()));
}

#[test]
fn equal_texts_need_no_update() {
    assert!(!needs_update(Some("nightly"), Some("nightly")));
    assert!(!needs_update(Some("1.2.3"), Some("1.2.3")));
}

#[test]
fn newer_semver_needs_update() {
    assert!(needs_update(Some("1.9.0"), Some("1.10.0")));
    assert!(!needs_update(Some("1.10.0"), Some("1.9.0")));
    assert!(is_newer_version("0.1.0", "0.2.0"));
}

#[test]
fn non_semver_differs_needs_update() {
    assert!(needs_update(Some("1.2"), Some("1.3")));
    assert!(needs_update(Some("abc"), Some("abd")));
}

#[test]
fn unknown_latest_never_needs_update() {
    assert!(!needs_update(Some("1.0.0"), None));
    assert!(!needs_update(None, None));
}

#[test]
fn missing_current_needs_install() {
    assert!(needs_update(None, Some("1.0.0")));
}

#[test]
fn status_kinds() {
    let a = app("tool");
    let mut s = AppStatus::new(&a, false, Some("1.0.0".to_string()));
    assert_eq!(s.kind(), StatusKind::LatestUnknown);
    assert!(!s.is_version_update_needed());
    s.set_latest_version("1.1.0".to_string());
    assert_eq!(s.latest_version, Some("1.1.0".to_string()));
    assert_eq!(s.kind(), StatusKind::UpdateAvailable);
    let mut t = AppStatus::new(&a, false, None);
    assert_eq!(t.kind(), StatusKind::Unknown);
    t.set_latest_version("2.0.0".to_string());
    assert_eq!(t.kind(), StatusKind::NotInstalled);
    let m = AppStatus::new(&a, true, Some("1.0.0".to_string()));
    assert!(m.is_pixi_managed());
    assert_eq!(m.kind(), StatusKind::Managed);
    let mut u = AppStatus::new(&a, false, Some("3.0.0".to_string()));
    u.set_latest_version("3.0.0".to_string());
    assert_eq!(u.kind(), StatusKind::UpToDate);
}

#[test]
fn self_update_equal_version_is_up_to_date() {
    assert_eq!(self_update_verdict("0.3.1", Some("0.3.1")).unwrap(), SelfUpdateVerdict::UpToDate);
}

#[test]
fn self_update_newer_and_older() {
    assert_eq!(self_update_verdict("0.3.1", Some("0.4.0")).unwrap(), SelfUpdateVerdict::Update);
    assert_eq!(self_update_verdict("0.5.0", Some("0.4.0")).unwrap(), SelfUpdateVerdict::LocalNewer);
}

#[test]
fn self_update_errors() {
    assert!(matches!(
        self_update_verdict("0.3.1", None),
        Err(gh_app_installer::error::InstallError::LatestVersionUnknown)
    ));
    match self_update_verdict("0.3.1", Some("v0.4")) {
        Err(gh_app_installer::error::InstallError::InvalidVersion { version }) => assert_eq!(version, "v0.4"),
        other => panic!("unexpected {:?}", other),
    }
    match self_update_verdict("dev", Some("0.4.0")) {
        Err(gh_app_installer::error::InstallError::InvalidVersion { version }) => assert_eq!(version, "dev"),
        other => panic!("unexpected {:?}", other),
    }
}
