use gh_app_installer::error::InstallError;
use gh_app_installer::github::{
    check_rate_limit, find_platform_assets, get_best_url, rate_limit_from_fields, release_api_url,
    release_response, select_asset, Asset, RateLimit, Release,
};
use gh_app_installer::platform::{asset_matcher, Platform, PlatformMatcher};

fn platform(os: &str, arch: &str) -> Platform {
    Platform { os: os.to_string(), arch: arch.to_string() }
}

fn asset(name: &str, url: Option<&str>) -> Asset {
    Asset {
        id: 1,
        name: name.to_string(),
        label: None,
        content_type: None,
        size: 10,
        download_count: 0,
        browser_download_url: url.map(|u| u.to_string()),
    }
}

#[test]
fn canonical_name_matches() {
    let p = platform("linux", "x86_64");
    assert!(asset_matcher("app-linux-x86_64.tar.gz", None, &p).is_ok());
    assert!(asset_matcher("linux-x86_64", None, &p).is_ok());
}

#[test]
fn alias_name_matches() {
    let p = platform("linux", "x86_64");
    assert!(asset_matcher("app-linux-amd64.tar.gz", None, &p).is_ok());
    let m = platform("macos", "aarch64");
    assert!(asset_matcher("tool-darwin-arm64.zip", None, &m).is_ok());
}

#[test]
fn upper_case_names_are_lowered() {
    let p = platform("linux", "x86_64");
    assert!(asset_matcher("APP-LINUX-X86_64.TAR.GZ", None, &p).is_ok());
}

#[test]
fn other_platform_does_not_match() {
    let p = platform("linux", "x86_64");
    assert!(matches!(asset_matcher("app-windows-arm64.zip", None, &p), Err(InstallError::NoMatch)));
}

#[test]
fn one_sided_aliases() {
    let p = platform("linux", "riscv64");
    assert!(asset_matcher("app-linux.tar.gz", None, &p).is_ok());
    let q = platform("plan9", "amd64");
    let empty = PlatformMatcher { arch_aliases: vec![], os_aliases: vec![] };
    assert!(asset_matcher("app-amd64.tar.gz", Some(&empty), &q).is_err());
}

#[test]
fn platform_to_string() {
    assert_eq!(platform("linux", "x86_64").to_string(), "linux-x86_64");
}

#[test]
fn default_tables() {
    let m = PlatformMatcher::default();
    assert_eq!(m.arch_aliases.len(), 3);
    assert_eq!(m.os_aliases.len(), 3);
}

#[test]
fn filtering_keeps_order() {
    let assets = vec![
        asset("a-linux-x86_64.tgz", Some("u1")),
        asset("a-windows-x86_64.zip", Some("u2")),
        asset("a-linux-amd64.tar.gz", Some("u3")),
    ];
    let found = find_platform_assets(&assets, None, &platform("linux", "x86_64")).unwrap();
    let names: Vec<&str> = found.iter().map(|a| a.name.as_str()).collect();
    assert_eq!(names, vec!["a-linux-x86_64.tgz", "a-linux-amd64.tar.gz"]);
}

#[test]
fn selection_skips_asset_without_url() {
    let a = asset("app-linux-x86_64.tar.gz", None);
    let b = asset("app-linux-amd64.tar.gz", Some("https://example.com/U"));
    let choice = select_asset(&vec![&a, &b]).unwrap();
    assert_eq!(choice.url, "https://example.com/U");
    assert_eq!(choice.name, "app-linux-amd64.tar.gz");
    assert!(choice.multiple);
}

#[test]
fn selection_errors() {
    assert!(matches!(select_asset(&vec![]), Err(InstallError::NoPlatformAsset)));
    let a = asset("x", None);
    assert!(matches!(select_asset(&vec![&a]), Err(InstallError::NoDownloadUrl)));
    let b = asset("y", None);
    assert!(matches!(select_asset(&vec![&a, &b]), Err(InstallError::NoAssetWithUrl)));
}

#[test]
fn single_asset_with_url() {
    let release = Release {
        tag_name: "v1.0.0".to_string(),
        html_url: String::new(),
        assets: vec![asset("t-linux-x86_64.tar.gz", Some("https://e/t.tar.gz")), asset("t-darwin-arm64.tar.gz", Some("https://e/d"))],
    };
    let choice = get_best_url(&release, None, &platform("linux", "x86_64")).unwrap();
    assert_eq!(choice.url, "https://e/t.tar.gz");
    assert!(!choice.multiple);
    assert!(matches!(get_best_url(&release, None, &platform("windows", "x86_64")), Err(InstallError::NoPlatformAsset)));
}

#[test]
fn release_url() {
    assert_eq!(
        release_api_url("sharkdp/bat").unwrap(),
        "https://api.github.com/repos/sharkdp/bat/releases/latest"
    );
    match release_api_url("bat") {
        Err(InstallError::InvalidRepository { repo }) => assert_eq!(repo, "bat"),
        other => panic!("unexpected {:?}", other),
    }
}

#[test]
fn release_statuses() {
    assert!(release_response(200, String::new()).is_ok());
    assert!(matches!(release_response(404, String::new()), Err(InstallError::NoRelease)));
    match release_response(500, "boom".to_string()) {
        Err(InstallError::HttpStatus { code, body }) => {
            assert_eq!(code, 500);
            assert_eq!(body, "boom");
        }
        other => panic!("unexpected {:?}", other),
    }
}

#[test]
fn rate_limit_exhausted() {
    match check_rate_limit(true, r#"{"rate": {"remaining": 0, "reset": 1700000000}}"#) {
        Err(InstallError::RateLimited { reset }) => assert_eq!(reset, 1700000000),
        other => panic!("unexpected {:?}", other),
    }
}

#[test]
fn rate_limit_available() {
    assert_eq!(
        check_rate_limit(true, r#"{"rate": {"remaining": 42, "reset": 5}}"#).unwrap(),
        RateLimit::Available { remaining: 42, reset: 5 }
    );
    assert_eq!(
        check_rate_limit(true, "{}").unwrap(),
        RateLimit::Available { remaining: 1, reset: 0 }
    );
}

#[test]
fn rate_limit_other_answers() {
    assert_eq!(check_rate_limit(false, "ignored").unwrap(), RateLimit::Unchecked);
    assert_eq!(
        check_rate_limit(true, r#"{"rate": {"remaining": "many", "reset": 9}, "other": 0}"#).unwrap(),
        RateLimit::Available { remaining: 1, reset: 9 }
    );
    assert!(matches!(check_rate_limit(true, "not json"), Err(InstallError::UnexpectedResponse)));
    assert!(matches!(rate_limit_from_fields(Some(0), None), Err(InstallError::RateLimited { reset: 0 })));
}
