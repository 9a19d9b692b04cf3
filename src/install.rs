//! What to do for one application, and the steps of a self-update.
//!
//! Each function decides; the caller performs the download, extraction,
//! process or file operation that the decision names.

use vstd::prelude::*;

use crate::app::{App, AppStatus, InstallationMethod};
use crate::error::InstallError;
use crate::github::{choice_spec, get_best_url, platform_assets, Release};
use crate::platform::{some_matcher, Platform, PlatformMatcher};
use crate::template::{
    downloads_from, normalized, process_template, render_spec, request_views, template_values,
    Rendered, TemplateContext,
};
use crate::text::chars_of;
use crate::version::{compare_semver, semver_order, semver_valid};

verus! {

/// What an install run does for one application.
#[derive(Debug)]
pub enum InstallPlan {
    /// Another package manager provides the binary.
    SkipManaged,
    /// The latest version is unknown: nothing to install.
    SkipLatestUnknown,
    /// Already at the latest version.
    SkipUpToDate,
    /// Download this release asset and place its binary.
    Download { url: String, name: String, multiple: bool, version: String, is_update: bool },
    /// Run this rendered command after its downloads; `update_step` tells
    /// whether it is the update command rather than the install command.
    RunCommand { command: Rendered, version: String, is_update: bool, update_step: bool },
}

/// The command for a step: the update command when updating and one is
/// given, else the install command.
pub open spec fn command_for(app: App, is_update: bool) -> Option<String> {
    if is_update && app.update_command is Some {
        app.update_command
    } else {
        app.install_command
    }
}

/// The command for a step, or `MissingCommand` when the application has none.
pub fn select_command(app: &App, is_update: bool) -> (r: Result<String, InstallError>)
    ensures
        match command_for(*app, is_update) {
            Some(c) => r matches Ok(x) && x@ == c@,
            None => r matches Err(InstallError::MissingCommand),
        },
{
    if is_update && app.update_command.is_some() {
        match &app.update_command {
            Some(c) => Ok(c.clone()),
            None => Err(InstallError::MissingCommand),
        }
    } else {
        match &app.install_command {
            Some(c) => Ok(c.clone()),
            None => Err(InstallError::MissingCommand),
        }
    }
}

/// Decides what to do for an application: skip it when it is managed
/// elsewhere or needs no update; else download the platform's asset or run
/// its rendered install or update command, for the latest version.
pub fn plan_install(
    status: &AppStatus,
    release: &Release,
    matcher: Option<&PlatformMatcher>,
    platform: &Platform,
    ctx: &TemplateContext,
) -> (r: Result<InstallPlan, InstallError>)
    ensures
        status.pixi_managed == Some(true) ==> r matches Ok(InstallPlan::SkipManaged),
        status.pixi_managed != Some(true) && status.latest_version is None ==> r matches Ok(
            InstallPlan::SkipLatestUnknown,
        ),
        status.pixi_managed != Some(true) && status.latest_version is Some
            && !status.update_needed_spec() ==> r matches Ok(InstallPlan::SkipUpToDate),
        status.pixi_managed != Some(true) && status.update_needed_spec()
            && status.app.method_spec() == InstallationMethod::GitHub ==> match choice_spec(
            platform_assets(release.assets@, some_matcher(matcher), *platform),
        ) {
            Ok((u, n, m)) => r matches Ok(
                InstallPlan::Download { url, name, multiple, version, is_update },
            ) && url@ == u && name@ == n && multiple == m && version@
                == status.latest_version->0@ && is_update == status.current_version is Some,
            Err(e) => r == Err::<InstallPlan, InstallError>(e),
        },
        status.pixi_managed != Some(true) && status.update_needed_spec()
            && status.app.method_spec() == InstallationMethod::Commands ==> match command_for(
            status.app,
            status.current_version is Some,
        ) {
            None => r matches Err(InstallError::MissingCommand),
            Some(c) => match normalized(ctx.raw_os@, ctx.raw_arch@) {
                None => r matches Err(InstallError::UnsupportedPlatform { .. }),
                Some((os, arch, suffix)) => r matches Ok(
                    InstallPlan::RunCommand { command, version, is_update, update_step },
                ) && update_step == (is_update && status.app.update_command is Some) && command.text@ == render_spec(
                    c@,
                    template_values(status.app, version@, *ctx, os, arch, suffix),
                ) && request_views(command.downloads@) == downloads_from(c@, 0) && version@
                    == status.latest_version->0@ && is_update == status.current_version is Some,
            },
        },
{
    if status.is_pixi_managed() {
        return Ok(InstallPlan::SkipManaged);
    }
    let latest = match &status.latest_version {
        Some(l) => l.clone(),
        None => return Ok(InstallPlan::SkipLatestUnknown),
    };
    if !status.is_version_update_needed() {
        return Ok(InstallPlan::SkipUpToDate);
    }
    let is_update = status.current_version.is_some();
    match status.app.installation_method() {
        InstallationMethod::GitHub => match get_best_url(release, matcher, platform) {
            Ok(choice) => Ok(
                InstallPlan::Download {
                    url: choice.url,
                    name: choice.name,
                    multiple: choice.multiple,
                    version: latest,
                    is_update,
                },
            ),
            Err(e) => Err(e),
        },
        InstallationMethod::Commands => {
            let command = match select_command(&status.app, is_update) {
                Ok(c) => c,
                Err(e) => return Err(e),
            };
            match process_template(command.as_str(), &status.app, latest.as_str(), ctx) {
                Ok(rendered) => Ok(
                    InstallPlan::RunCommand {
                        command: rendered,
                        version: latest,
                        is_update,
                        update_step: is_update && status.app.update_command.is_some(),
                    },
                ),
                Err(e) => Err(e),
            }
        },
    }
}

/// The result of running a command: an unsuccessful exit is an error that
/// carries the command and its stderr.
pub fn command_outcome(command: &str, success: bool, stderr: &str) -> (r: Result<(), InstallError>)
    ensures
        success ==> r is Ok,
        !success ==> (r matches Err(InstallError::CommandFailed { command: c, stderr: e }) && c@
            == command@ && e@ == stderr@),
{
    if success {
        Ok(())
    } else {
        Err(
            InstallError::CommandFailed {
                command: String::from_str(command),
                stderr: String::from_str(stderr),
            },
        )
    }
}

/// Whether a batch stops after an application: only on a failure, and only
/// when asked to stop on errors.
pub fn batch_should_stop(stop_on_error: bool, failed: bool) -> (r: bool)
    ensures
        r == (stop_on_error && failed),
{
    stop_on_error && failed
}

/// The kinds of archive that can be unpacked.
#[derive(Debug, PartialEq, Eq, Structural, Clone, Copy)]
pub enum ArchiveFormat {
    TarGz,
    Tar,
    Zip,
}

/// `s` ends with `suffix`.
pub open spec fn ends_with(s: Seq<char>, suffix: Seq<char>) -> bool {
    suffix.len() <= s.len() && s.subrange(s.len() - suffix.len(), s.len() as int) == suffix
}

/// Whether `s` ends with `suffix`.
pub fn ends_with_exec(s: &str, suffix: &str) -> (r: bool)
    ensures
        r == ends_with(s@, suffix@),
{
    let a = chars_of(s);
    let b = chars_of(suffix);
    if b.len() > a.len() {
        return false;
    }
    let r = crate::text::occurs_at_exec(&a, &b, a.len() - b.len());
    r
}

/// The archive format named by the end of a download URL.
pub open spec fn format_of(url: Seq<char>) -> Option<ArchiveFormat> {
    if ends_with(url, ".tar.gz"@) || ends_with(url, ".tgz"@) {
        Some(ArchiveFormat::TarGz)
    } else if ends_with(url, ".tar"@) {
        Some(ArchiveFormat::Tar)
    } else if ends_with(url, ".zip"@) {
        Some(ArchiveFormat::Zip)
    } else {
        None
    }
}

/// The archive format of a download URL: `.tar.gz` or `.tgz`, `.tar`,
/// `.zip`; any other ending is an unsupported format.
pub fn archive_format(url: &str) -> (r: Result<ArchiveFormat, InstallError>)
    ensures
        match format_of(url@) {
            Some(f) => r == Ok::<ArchiveFormat, InstallError>(f),
            None => r matches Err(InstallError::UnsupportedArchive { url: u }) && u@ == url@,
        },
{
    if ends_with_exec(url, ".tar.gz") || ends_with_exec(url, ".tgz") {
        Ok(ArchiveFormat::TarGz)
    } else if ends_with_exec(url, ".tar") {
        Ok(ArchiveFormat::Tar)
    } else if ends_with_exec(url, ".zip") {
        Ok(ArchiveFormat::Zip)
    } else {
        Err(InstallError::UnsupportedArchive { url: String::from_str(url) })
    }
}

/// Whether a zip entry is a directory: its name ends with `/`.
pub fn zip_entry_is_dir(name: &str) -> (r: bool)
    ensures
        r == ends_with(name@, "/"@),
{
    ends_with_exec(name, "/")
}

/// A file name is the binary's: its name, or its name with `.exe`.
pub open spec fn is_binary_name(file_name: Seq<char>, bin: Seq<char>) -> bool {
    file_name == bin || file_name == bin + ".exe"@
}

/// Whether a file name is the binary's.
pub fn binary_name_matches(file_name: &str, bin: &str) -> (r: bool)
    ensures
        r == is_binary_name(file_name@, bin@),
{
    let f = chars_of(file_name);
    let b = chars_of(bin);
    if crate::text::seq_equal(&f, &b) {
        return true;
    }
    let mut exe = String::from_str(bin);
    exe.append(".exe");
    let e = chars_of(exe.as_str());
    crate::text::seq_equal(&f, &e)
}

/// An entry of a directory listing.
#[derive(Debug)]
pub struct DirEntryInfo {
    pub path: String,
    pub file_name: String,
    pub is_file: bool,
    pub is_dir: bool,
}

pub open spec fn binary_entry_pred(e: Seq<DirEntryInfo>, bin: Seq<char>) -> spec_fn(int) -> bool {
    |i: int| e[i].is_file && is_binary_name(e[i].file_name@, bin)
}

/// The paths of the directories among `e`, in order.
pub open spec fn dir_paths(e: Seq<DirEntryInfo>) -> Seq<Seq<char>>
    decreases e.len(),
{
    if e.len() == 0 {
        Seq::empty()
    } else {
        let rest = dir_paths(e.drop_last());
        if !e.last().is_file && e.last().is_dir {
            rest.push(e.last().path@)
        } else {
            rest
        }
    }
}

/// A search for the binary in an extracted tree, with an explicit worklist
/// of directories still to list.
#[derive(Debug)]
pub struct BinarySearch {
    pub pending: Vec<String>,
}

impl BinarySearch {
    /// A search that starts at `root`.
    pub fn new(root: String) -> (r: Self)
        ensures
            r.pending@.len() == 1,
            r.pending@[0] == root,
    {
        let mut pending: Vec<String> = Vec::new();
        pending.push(root);
        BinarySearch { pending }
    }

    /// The next directory to list; when none is left, the binary is not in
    /// the tree.
    pub fn next_dir(&mut self, bin: &str) -> (r: Result<String, InstallError>)
        ensures
            old(self).pending@.len() == 0 ==> final(self).pending@.len() == 0 && (r matches Err(
                InstallError::BinaryNotFound { bin: b },
            ) && b@ == bin@),
            old(self).pending@.len() > 0 ==> r == Ok::<String, InstallError>(old(self).pending@.last())
                && final(self).pending@ == old(self).pending@.drop_last(),
    {
        match self.pending.pop() {
            Some(d) => Ok(d),
            None => Err(InstallError::BinaryNotFound { bin: String::from_str(bin) }),
        }
    }

    /// Takes the listing of a directory: the first file named after the
    /// binary is the result; if there is none, its subdirectories are added
    /// to the worklist.
    pub fn visit(&mut self, entries: &Vec<DirEntryInfo>, bin: &str) -> (r: Option<String>)
        ensures
            match crate::version::first_from(entries@.len() as int, 0, binary_entry_pred(entries@, bin@)) {
                Some(i) => r matches Some(p) && p@ == entries@[i].path@ && final(self).pending@
                    == old(self).pending@,
                None => r is None && crate::platform::texts(final(self).pending@)
                    == crate::platform::texts(old(self).pending@) + dir_paths(entries@),
            },
    {
        let ghost p = binary_entry_pred(entries@, bin@);
        let n = entries.len();
        let mut i: usize = 0;
        while i < n
            invariant
                n == entries@.len(),
                i <= n,
                crate::version::first_from(n as int, 0, p) == crate::version::first_from(n as int, i as int, p),
                p == binary_entry_pred(entries@, bin@),
            decreases n - i,
        {
            if entries[i].is_file && binary_name_matches(entries[i].file_name.as_str(), bin) {
                assert(p(i as int));
                return Some(entries[i].path.clone());
            }
            assert(!p(i as int));
            i = i + 1;
        }
        let ghost start = self.pending@;
        let mut j: usize = 0;
        while j < n
            invariant
                n == entries@.len(),
                j <= n,
                crate::platform::texts(self.pending@) == crate::platform::texts(start) + dir_paths(
                    entries@.subrange(0, j as int),
                ),
            decreases n - j,
        {
            let ghost before = self.pending@;
            assert(entries@.subrange(0, j + 1).drop_last() =~= entries@.subrange(0, j as int));
            if !entries[j].is_file && entries[j].is_dir {
                self.pending.push(entries[j].path.clone());
                assert(crate::platform::texts(self.pending@) =~= crate::platform::texts(before).push(
                    entries@[j as int].path@,
                ));
            }
            j = j + 1;
        }
        assert(entries@.subrange(0, n as int) =~= entries@);
        None
    }
}

/// What a self-update does, by version.
#[derive(Debug, PartialEq, Eq, Structural, Clone, Copy)]
pub enum SelfUpdateVerdict {
    /// The latest release is the running version: nothing is downloaded.
    UpToDate,
    /// The running version is newer than the latest release.
    LocalNewer,
    /// The latest release is newer.
    Update,
}

/// Compares the running version with the latest release: both must be
/// semantic versions, the latest one first.
pub fn self_update_verdict(current: &str, latest: Option<&str>) -> (r: Result<
    SelfUpdateVerdict,
    InstallError,
>)
    ensures
        match latest {
            None => r matches Err(InstallError::LatestVersionUnknown),
            Some(l) => if !semver_valid(l@) {
                r matches Err(InstallError::InvalidVersion { version: v }) && v@ == l@
            } else if !semver_valid(current@) {
                r matches Err(InstallError::InvalidVersion { version: v }) && v@ == current@
            } else {
                r == Ok::<SelfUpdateVerdict, InstallError>(
                    if l@ == current@ {
                        SelfUpdateVerdict::UpToDate
                    } else if semver_order(l@, current@) == core::cmp::Ordering::Greater {
                        SelfUpdateVerdict::Update
                    } else if semver_order(l@, current@) == core::cmp::Ordering::Equal {
                        SelfUpdateVerdict::UpToDate
                    } else {
                        SelfUpdateVerdict::LocalNewer
                    },
                )
            },
        },
{
    let l = match latest {
        Some(l) => l,
        None => return Err(InstallError::LatestVersionUnknown),
    };
    if compare_semver(l, l).is_none() {
        return Err(InstallError::InvalidVersion { version: String::from_str(l) });
    }
    match compare_semver(l, current) {
        None => Err(InstallError::InvalidVersion { version: String::from_str(current) }),
        Some(o) => {
            let same = crate::text::seq_equal(&chars_of(l), &chars_of(current));
            if same {
                Ok(SelfUpdateVerdict::UpToDate)
            } else {
                match o {
                    core::cmp::Ordering::Greater => Ok(SelfUpdateVerdict::Update),
                    core::cmp::Ordering::Equal => Ok(SelfUpdateVerdict::UpToDate),
                    core::cmp::Ordering::Less => Ok(SelfUpdateVerdict::LocalNewer),
                }
            }
        },
    }
}

/// What a self-update does once a newer release is known.
#[derive(Debug)]
pub enum SelfUpdateAction {
    /// Dry run: report the URL that would be downloaded.
    Preview { url: String, multiple: bool },
    /// Download the URL, then replace the executable.
    Download { url: String, multiple: bool },
}

/// Decides the self-update of a newer release: the executable must be
/// writable before anything is downloaded; then the platform's asset is
/// chosen, and a dry run stops at reporting it.
pub fn self_update_action(
    writable: bool,
    exe_path: &str,
    dry_run: bool,
    release: &Release,
    matcher: Option<&PlatformMatcher>,
    platform: &Platform,
) -> (r: Result<SelfUpdateAction, InstallError>)
    ensures
        !writable ==> (r matches Err(InstallError::PermissionDenied { path }) && path@ == exe_path@),
        writable ==> match choice_spec(platform_assets(release.assets@, some_matcher(matcher), *platform)) {
            Ok((u, _n, m)) => if dry_run {
                r matches Ok(SelfUpdateAction::Preview { url, multiple }) && url@ == u && multiple == m
            } else {
                r matches Ok(SelfUpdateAction::Download { url, multiple }) && url@ == u && multiple
                    == m
            },
            Err(e) => r == Err::<SelfUpdateAction, InstallError>(e),
        },
{
    if !writable {
        return Err(InstallError::PermissionDenied { path: String::from_str(exe_path) });
    }
    match get_best_url(release, matcher, platform) {
        Ok(choice) => if dry_run {
            Ok(SelfUpdateAction::Preview { url: choice.url, multiple: choice.multiple })
        } else {
            Ok(SelfUpdateAction::Download { url: choice.url, multiple: choice.multiple })
        },
        Err(e) => Err(e),
    }
}

/// The names under which a release archive may hold this tool's binary, in
/// the order they are searched.
pub fn self_binary_names() -> (r: Vec<String>)
    ensures
        r@.len() == 2,
        r@[0]@ == "rs-gh-app"@,
        r@[1]@ == "gh-app-installer"@,
{
    let mut v: Vec<String> = Vec::new();
    v.push(String::from_str("rs-gh-app"));
    v.push(String::from_str("gh-app-installer"));
    v
}

/// This tool as an application: updated from its own repository.
pub fn this_app() -> (r: App)
    ensures
        r.name@ == "rs-gh-app"@,
        r.bin@ == "rs-gh-app"@,
        r.repo matches Some(x) && x@ == "mfouesneau/rs-gh-app"@,
        r.install_command is None,
        r.update_command is None,
        r.version_command is None,
{
    App {
        name: String::from_str("rs-gh-app"),
        repo: Some(String::from_str("mfouesneau/rs-gh-app")),
        bin: String::from_str("rs-gh-app"),
        install_command: None,
        update_command: None,
        description: Some(String::from_str("A command-line tool for managing GitHub applications")),
        version_command: None,
    }
}

/// The status of this tool at its running version, which no other package
/// manager provides.
pub fn this_app_status(running_version: &str) -> (r: AppStatus)
    ensures
        r.app.name@ == "rs-gh-app"@,
        r.app.bin@ == "rs-gh-app"@,
        r.app.repo matches Some(x) && x@ == "mfouesneau/rs-gh-app"@,
        r.app.install_command is None,
        r.app.update_command is None,
        r.app.version_command is None,
        r.current_version matches Some(c) && c@ == running_version@,
        r.latest_version is None,
        r.pixi_managed == Some(false),
{
    AppStatus {
        pixi_managed: Some(false),
        current_version: Some(String::from_str(running_version)),
        latest_version: None,
        app: this_app(),
    }
}

} // verus!
