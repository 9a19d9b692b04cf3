use gh_app_installer::app::App;
use gh_app_installer::error::InstallError;
use gh_app_installer::template::{expand_downloads, normalize_platform, process_template, TemplateContext};

fn app() -> App {
    App {
        name: "Ripgrep".to_string(),
        bin: "rg".to_string(),
        description: None,
        repo: Some("BurntSushi/ripgrep".to_string()),
        install_command: None,
        update_command: None,
        version_command: None,
    }
}

fn ctx(os: &str, arch: &str) -> TemplateContext {
    TemplateContext {
        raw_os: os.to_string(),
        raw_arch: arch.to_string(),
        bin_dir: "/home/u/.local/bin".to_string(),
        bin_path: "/home/u/.local/bin/rg".to_string(),
        app_path: "/work".to_string(),
    }
}

#[test]
fn static_text_is_unchanged() {
    let r = process_template("static text", &app(), "1.0.0", &ctx("linux", "x86_64")).unwrap();
    assert_eq!(r.text, "static text");
    assert!(r.downloads.is_empty());
}

#[test]
fn bin_placeholder_gives_binary() {
    let r = process_template("{bin}", &app(), "1.0.0", &ctx("macos", "aarch64")).unwrap();
    assert_eq!(r.text, "rg");
}

#[test]
fn all_placeholders() {
    let r = process_template(
        "{name} {version} {os} {arch} {raw_os} {raw_arch} {suffix} {bin_dir} {bin_path} {app_path} {unknown}",
        &app(),
        "14.1.0",
        &ctx("macos", "x86_64"),
    )
    .unwrap();
    assert_eq!(
        r.text,
        "Ripgrep 14.1.0 darwin x86_64 macos x86_64 x86_64-apple-darwin /home/u/.local/bin /home/u/.local/bin/rg /work {unknown}"
    );
}

#[test]
fn download_macro_is_replaced_by_dest() {
    let r = process_template(
        "{download(https://astral.sh/uv/install.sh, /tmp/uv-install.sh)} && sh /tmp/uv-install.sh --bin-dir {bin_dir}",
        &app(),
        "1.0.0",
        &ctx("linux", "x86_64"),
    )
    .unwrap();
    assert_eq!(r.text, "/tmp/uv-install.sh && sh /tmp/uv-install.sh --bin-dir /home/u/.local/bin");
    assert_eq!(r.downloads.len(), 1);
    assert_eq!(r.downloads[0].url, "https://astral.sh/uv/install.sh");
    assert_eq!(r.downloads[0].dest, "/tmp/uv-install.sh");
}

#[test]
fn dest_placeholders_resolve_after_macros() {
    let (text, reqs) = expand_downloads("a {download(u1,d1)} b {download( u2 , /x/{bin} )} c");
    assert_eq!(text, "a d1 b /x/{bin} c");
    assert_eq!(reqs.len(), 2);
    assert_eq!(reqs[1].url, "u2");
    assert_eq!(reqs[1].dest, "/x/{bin}");
    let r = process_template("{download(u, /x/{bin})}", &app(), "1", &ctx("linux", "aarch64")).unwrap();
    assert_eq!(r.text, "/x/rg");
}

#[test]
fn incomplete_macro_is_left_alone() {
    let (text, reqs) = expand_downloads("{download(u)} and {download(a,)}");
    assert_eq!(text, "{download(u)} and {download(a,)}");
    assert!(reqs.is_empty());
    let (text, reqs) = expand_downloads("{download(u)} {download(,d)}");
    assert_eq!(text, "d");
    assert_eq!(reqs[0].url, "u)} {download(");
}

#[test]
fn unsupported_platform() {
    match process_template("{bin}", &app(), "1", &ctx("freebsd", "x86_64")) {
        Err(InstallError::UnsupportedPlatform { os, arch }) => {
            assert_eq!(os, "freebsd");
            assert_eq!(arch, "x86_64");
        }
        other => panic!("unexpected {:?}", other),
    }
}

#[test]
fn normalization_table() {
    let (o, a, s) = normalize_platform("windows", "x86_64").unwrap();
    assert_eq!((o.as_str(), a.as_str(), s.as_str()), ("windows", "x86_64", "x86_64-pc-windows-msvc"));
    let (o, _, s) = normalize_platform("linux", "aarch64").unwrap();
    assert_eq!((o.as_str(), s.as_str()), ("linux", "aarch64-unknown-linux-gnu"));
    assert!(normalize_platform("windows", "aarch64").is_none());
}
