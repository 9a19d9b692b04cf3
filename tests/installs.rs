use gh_app_installer::app::{filter_apps, App, AppStatus, Config, InstallationMethod, StatusKind};
use gh_app_installer::error::InstallError;
use gh_app_installer::github::{Asset, Release};
use gh_app_installer::install::{
    archive_format, batch_should_stop, binary_name_matches, command_outcome, plan_install,
    select_command, self_binary_names, self_update_action, this_app_status, zip_entry_is_dir,
    ArchiveFormat, BinarySearch, DirEntryInfo, InstallPlan, SelfUpdateAction,
};
use gh_app_installer::platform::Platform;
use gh_app_installer::resolve::{
    externally_managed, latest_version_source, LatestSource, ProbeOutcome, ProbeStep, VersionProbe,
};
use gh_app_installer::template::TemplateContext;

fn bare(name: &str) -> App {
    App {
        name: name.to_string(),
        bin: format!("{}-bin", name),
        description: None,
        repo: None,
        install_command: None,
        update_command: None,
        version_command: None,
    }
}

fn linux() -> Platform {
    Platform { os: "linux".to_string(), arch: "x86_64".to_string() }
}

fn ctx() -> TemplateContext {
    TemplateContext {
        raw_os: "linux".to_string(),
        raw_arch: "x86_64".to_string(),
        bin_dir: "/b".to_string(),
        bin_path: "/b/uv-bin".to_string(),
        app_path: "/w".to_string(),
    }
}

fn release(urls: &[(&str, Option<&str>)]) -> Release {
    Release {
        tag_name: "v1.2.0".to_string(),
        html_url: "https://example.com/r".to_string(),
        assets: urls
            .iter()
            .map(|(n, u)| Asset {
                id: 7,
                name: n.to_string(),
                label: None,
                content_type: None,
                size: 1,
                download_count: 2,
                browser_download_url: u.map(|x| x.to_string()),
            })
            .collect(),
    }
}

fn outcome(launched: bool, success: bool, stdout: &str, stderr: &str) -> ProbeOutcome {
    ProbeOutcome { launched, success, stdout: stdout.to_string(), stderr: stderr.to_string() }
}

#[test]
fn app_without_channel_is_a_noop() {
    let a = bare("lonely");
    assert!(matches!(latest_version_source(&a), LatestSource::Unknown));
    assert_eq!(a.installation_method(), InstallationMethod::GitHub);
    assert_eq!(a.get_repo(), "");
    let s = AppStatus::new(&a, false, None);
    assert_eq!(s.kind(), StatusKind::Unknown);
    let plan = plan_install(&s, &Release::empty(), None, &linux(), &ctx()).unwrap();
    assert!(matches!(plan, InstallPlan::SkipLatestUnknown));
}

#[test]
fn latest_sources() {
    let mut a = bare("x");
    a.repo = Some("o/x".to_string());
    a.version_command = Some("echo 1.0.0".to_string());
    assert!(matches!(latest_version_source(&a), LatestSource::Repository(r) if r == "o/x"));
    a.repo = Some(String::new());
    assert!(matches!(latest_version_source(&a), LatestSource::Command(c) if c == "echo 1.0.0"));
}

#[test]
fn status_from_tag_and_command() {
    let a = bare("x");
    let mut s = AppStatus::new(&a, false, Some("1.0.0".to_string()));
    s.apply_release_tag("release-v1.2.0");
    assert_eq!(s.latest_version, Some("1.2.0".to_string()));
    let mut t = AppStatus::new(&a, false, None);
    assert!(t.apply_command_output("cmd", true, "x 3.4.5\n", "").is_ok());
    assert_eq!(t.latest_version, Some("3.4.5".to_string()));
    match t.apply_command_output("cmd", false, "", "bad") {
        Err(InstallError::CommandFailed { command, stderr }) => {
            assert_eq!(command, "cmd");
            assert_eq!(stderr, "bad");
        }
        other => panic!("unexpected {:?}", other),
    }
}

#[test]
fn plan_download_and_skips() {
    let a = bare("tool");
    let r = release(&[("tool-linux-x86_64.tar.gz", Some("https://e/t.tar.gz"))]);
    let mut s = AppStatus::new(&a, false, Some("1.0.0".to_string()));
    s.set_latest_version("1.2.0".to_string());
    match plan_install(&s, &r, None, &linux(), &ctx()).unwrap() {
        InstallPlan::Download { url, version, is_update, multiple, .. } => {
            assert_eq!(url, "https://e/t.tar.gz");
            assert_eq!(version, "1.2.0");
            assert!(is_update);
            assert!(!multiple);
        }
        other => panic!("unexpected {:?}", other),
    }
    let mut same = AppStatus::new(&a, false, Some("1.2.0".to_string()));
    same.set_latest_version("1.2.0".to_string());
    assert!(matches!(plan_install(&same, &r, None, &linux(), &ctx()).unwrap(), InstallPlan::SkipUpToDate));
    let mut managed = AppStatus::new(&a, true, None);
    managed.set_latest_version("1.2.0".to_string());
    assert!(matches!(plan_install(&managed, &r, None, &linux(), &ctx()).unwrap(), InstallPlan::SkipManaged));
    let mut fresh = AppStatus::new(&a, false, None);
    fresh.set_latest_version("1.2.0".to_string());
    let none = release(&[("tool-windows.zip", Some("u"))]);
    assert!(matches!(plan_install(&fresh, &none, None, &linux(), &ctx()), Err(InstallError::NoPlatformAsset)));
}

#[test]
fn plan_commands() {
    let mut a = bare("uv");
    a.install_command = Some("install {version} into {bin_dir}".to_string());
    a.update_command = Some("{bin} self update".to_string());
    let mut fresh = AppStatus::new(&a, false, None);
    fresh.set_latest_version("0.5.0".to_string());
    match plan_install(&fresh, &Release::empty(), None, &linux(), &ctx()).unwrap() {
        InstallPlan::RunCommand { command, is_update, update_step, .. } => {
            assert_eq!(command.text, "install 0.5.0 into /b");
            assert!(!is_update);
            assert!(!update_step);
        }
        other => panic!("unexpected {:?}", other),
    }
    let mut old = AppStatus::new(&a, false, Some("0.4.0".to_string()));
    old.set_latest_version("0.5.0".to_string());
    match plan_install(&old, &Release::empty(), None, &linux(), &ctx()).unwrap() {
        InstallPlan::RunCommand { command, is_update, update_step, .. } => {
            assert_eq!(command.text, "uv-bin self update");
            assert!(is_update);
            assert!(update_step);
        }
        other => panic!("unexpected {:?}", other),
    }
}

#[test]
fn missing_install_command() {
    let mut a = bare("u");
    a.update_command = Some("up".to_string());
    assert!(matches!(select_command(&a, false), Err(InstallError::MissingCommand)));
    assert_eq!(select_command(&a, true).unwrap(), "up");
}

#[test]
fn command_results() {
    assert!(command_outcome("x", true, "").is_ok());
    assert!(matches!(command_outcome("x", false, "e"), Err(InstallError::CommandFailed { .. })));
    assert!(batch_should_stop(true, true));
    assert!(!batch_should_stop(false, true));
    assert!(!batch_should_stop(true, false));
}

#[test]
fn archive_formats() {
    assert_eq!(archive_format("https://e/a.tar.gz").unwrap(), ArchiveFormat::TarGz);
    assert_eq!(archive_format("https://e/a.tgz").unwrap(), ArchiveFormat::TarGz);
    assert_eq!(archive_format("https://e/a.tar").unwrap(), ArchiveFormat::Tar);
    assert_eq!(archive_format("https://e/a.zip").unwrap(), ArchiveFormat::Zip);
    match archive_format("https://e/a.exe") {
        Err(InstallError::UnsupportedArchive { url }) => assert_eq!(url, "https://e/a.exe"),
        other => panic!("unexpected {:?}", other),
    }
    assert!(zip_entry_is_dir("bin/"));
    assert!(!zip_entry_is_dir("bin/rg"));
}

#[test]
fn binary_search_worklist() {
    assert!(binary_name_matches("rg", "rg"));
    assert!(binary_name_matches("rg.exe", "rg"));
    assert!(!binary_name_matches("rgx", "rg"));
    let mut search = BinarySearch::new("/t".to_string());
    assert_eq!(search.next_dir("rg").unwrap(), "/t");
    let entries = vec![
        DirEntryInfo { path: "/t/doc".to_string(), file_name: "doc".to_string(), is_file: false, is_dir: true },
        DirEntryInfo { path: "/t/README".to_string(), file_name: "README".to_string(), is_file: true, is_dir: false },
        DirEntryInfo { path: "/t/sub".to_string(), file_name: "sub".to_string(), is_file: false, is_dir: true },
    ];
    assert_eq!(search.visit(&entries, "rg"), None);
    assert_eq!(search.pending, vec!["/t/doc".to_string(), "/t/sub".to_string()]);
    assert_eq!(search.next_dir("rg").unwrap(), "/t/sub");
    let found = vec![DirEntryInfo { path: "/t/sub/rg".to_string(), file_name: "rg".to_string(), is_file: true, is_dir: false }];
    assert_eq!(search.visit(&found, "rg"), Some("/t/sub/rg".to_string()));
}

#[test]
fn binary_not_in_tree() {
    let mut search = BinarySearch::new("/t".to_string());
    assert_eq!(search.next_dir("rg").unwrap(), "/t");
    assert_eq!(search.visit(&vec![], "rg"), None);
    match search.next_dir("rg") {
        Err(InstallError::BinaryNotFound { bin }) => assert_eq!(bin, "rg"),
        other => panic!("unexpected {:?}", other),
    }
}

#[test]
fn version_probe_sequence() {
    let mut p = VersionProbe::new();
    assert!(matches!(p.current_step(), ProbeStep::Run(Some(f)) if f == "--version"));
    assert!(matches!(p.step(&outcome(true, false, "1.0.0", "")), ProbeStep::Run(Some(f)) if f == "-V"));
    assert!(matches!(p.step(&outcome(false, false, "", "")), ProbeStep::Run(Some(f)) if f == "-v"));
    assert!(matches!(p.step(&outcome(true, true, "usage", "")), ProbeStep::Run(Some(f)) if f == "version"));
    assert!(matches!(p.step(&outcome(true, true, "", "")), ProbeStep::Run(None)));
    assert!(matches!(p.step(&outcome(true, false, "help", "tool 2.1.0")), ProbeStep::Found(v) if v == "2.1.0"));
    let mut q = VersionProbe::new();
    assert!(matches!(q.step(&outcome(true, true, "rg 14.1.0", "")), ProbeStep::Found(v) if v == "14.1.0"));
    let mut r = VersionProbe { attempt: 4 };
    assert!(matches!(r.step(&outcome(false, false, "", "")), ProbeStep::NotFound));
}

#[test]
fn external_manager_detection() {
    assert!(!externally_managed(None));
    assert!(!externally_managed(Some("No global environments found for 'rg'")));
    assert!(externally_managed(Some("Global environments:\n  rg 14.1.0")));
}

#[test]
fn apps_by_name() {
    let apps = vec![bare("a"), bare("b")];
    assert_eq!(filter_apps(&apps, None).unwrap().len(), 2);
    let found = filter_apps(&apps, Some("b-bin".to_string())).unwrap();
    assert_eq!(found.len(), 1);
    assert_eq!(found[0].name, "b");
    match filter_apps(&apps, Some("zz".to_string())) {
        Err(InstallError::AppNotFound { name }) => assert_eq!(name, "zz"),
        other => panic!("unexpected {:?}", other),
    }
}

#[test]
fn sample_configuration() {
    let c = Config::sample();
    let names: Vec<&str> = c.apps.iter().map(|a| a.name.as_str()).collect();
    assert_eq!(names, vec!["dust", "bat", "uv"]);
    assert_eq!(c.apps[2].installation_method(), InstallationMethod::Commands);
    assert_eq!(c.apps[0].get_repo(), "bootandy/dust");
}

#[test]
fn self_update_steps() {
    let r = release(&[("rs-gh-app-linux-x86_64.tar.gz", Some("https://e/s.tar.gz"))]);
    assert!(matches!(
        self_update_action(false, "/usr/bin/x", false, &r, None, &linux()),
        Err(InstallError::PermissionDenied { path }) if path == "/usr/bin/x"
    ));
    assert!(matches!(
        self_update_action(true, "/x", true, &r, None, &linux()).unwrap(),
        SelfUpdateAction::Preview { url, .. } if url == "https://e/s.tar.gz"
    ));
    assert!(matches!(
        self_update_action(true, "/x", false, &r, None, &linux()).unwrap(),
        SelfUpdateAction::Download { url, .. } if url == "https://e/s.tar.gz"
    ));
    assert_eq!(self_binary_names(), vec!["rs-gh-app".to_string(), "gh-app-installer".to_string()]);
    let s = this_app_status("0.3.0");
    assert_eq!(s.current_version, Some("0.3.0".to_string()));
    assert_eq!(s.app.get_repo(), "mfouesneau/rs-gh-app");
}
