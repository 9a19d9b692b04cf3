//! Current and latest versions of an application.
//!
//! The current version is probed by running the binary with `--version`,
//! `-V`, `-v` and `version` in turn, then with no argument; the caller runs
//! each step and hands back its outcome. The latest version comes from the
//! repository's release tag or from the application's version command.

use vstd::prelude::*;

use crate::app::{App, AppStatus};
use crate::error::InstallError;
use crate::text::{contains, str_contains};
use crate::version::{extract_version_from_string, extracted_version};

verus! {

/// The flag tried at attempt `k` (0 to 3).
pub open spec fn version_flag(k: int) -> Seq<char> {
    if k == 0 {
        "--version"@
    } else if k == 1 {
        "-V"@
    } else if k == 2 {
        "-v"@
    } else {
        "version"@
    }
}

/// What the caller runs next, or what the probe found.
#[derive(Debug)]
pub enum ProbeStep {
    /// Run the binary with this flag, or with no argument.
    Run(Option<String>),
    /// The version was detected.
    Found(String),
    /// No attempt gave a version.
    NotFound,
}

/// What came of running the binary once.
#[derive(Debug)]
pub struct ProbeOutcome {
    /// The process could be started and waited for.
    pub launched: bool,
    /// It exited successfully.
    pub success: bool,
    pub stdout: String,
    pub stderr: String,
}

/// The position of a current-version probe: attempts 0 to 3 use a flag,
/// attempt 4 uses no argument, 5 is finished.
#[derive(Debug)]
pub struct VersionProbe {
    pub attempt: usize,
}

/// The run that attempt `k` asks for.
pub open spec fn run_spec(k: int, step: ProbeStep) -> bool {
    if k < 4 {
        step matches ProbeStep::Run(Some(f)) && f@ == version_flag(k)
    } else {
        step matches ProbeStep::Run(None)
    }
}

fn flag_of(k: usize) -> (r: String)
    requires
        k < 4,
    ensures
        r@ == version_flag(k as int),
{
    if k == 0 {
        String::from_str("--version")
    } else if k == 1 {
        String::from_str("-V")
    } else if k == 2 {
        String::from_str("-v")
    } else {
        String::from_str("version")
    }
}

impl VersionProbe {
    /// A probe before its first run.
    pub fn new() -> (r: Self)
        ensures
            r.attempt == 0,
    {
        VersionProbe { attempt: 0 }
    }

    /// The run that the current attempt asks for.
    pub fn current_step(&self) -> (r: ProbeStep)
        ensures
            self.attempt <= 4 ==> run_spec(self.attempt as int, r),
            self.attempt > 4 ==> r is NotFound,
    {
        if self.attempt < 4 {
            ProbeStep::Run(Some(flag_of(self.attempt)))
        } else if self.attempt == 4 {
            ProbeStep::Run(None)
        } else {
            ProbeStep::NotFound
        }
    }

    /// Takes the outcome of the current run. A run counts when it was
    /// launched and, for a flag, exited successfully; its version is taken
    /// from stdout, then from stderr. Otherwise the next run is asked for,
    /// until none is left.
    pub fn step(&mut self, outcome: &ProbeOutcome) -> (r: ProbeStep)
        ensures
            ({
                let k = old(self).attempt as int;
                let counts = outcome.launched && (outcome.success || k == 4);
                let out = extracted_version(outcome.stdout@);
                let err = extracted_version(outcome.stderr@);
                if k > 4 {
                    r is NotFound && final(self).attempt == old(self).attempt
                } else if counts && out is Some {
                    r matches ProbeStep::Found(v) && v@ == out->0 && final(self).attempt == 5
                } else if counts && err is Some {
                    r matches ProbeStep::Found(v) && v@ == err->0 && final(self).attempt == 5
                } else if k < 4 {
                    final(self).attempt == k + 1 && run_spec(k + 1, r)
                } else {
                    r is NotFound && final(self).attempt == 5
                }
            }),
    {
        let k = self.attempt;
        if k > 4 {
            return ProbeStep::NotFound;
        }
        if outcome.launched && (outcome.success || k == 4) {
            if let Some(v) = extract_version_from_string(outcome.stdout.as_str()) {
                self.attempt = 5;
                return ProbeStep::Found(v);
            }
            if let Some(v) = extract_version_from_string(outcome.stderr.as_str()) {
                self.attempt = 5;
                return ProbeStep::Found(v);
            }
        }
        if k < 4 {
            self.attempt = k + 1;
            self.current_step()
        } else {
            self.attempt = 5;
            ProbeStep::NotFound
        }
    }
}

/// Where the latest version of an application comes from.
#[derive(Debug)]
pub enum LatestSource {
    /// The latest release of this `owner/name` repository.
    Repository(String),
    /// The output of this version command (a template).
    Command(String),
    /// Nowhere: the latest version stays unknown, with no network call.
    Unknown,
}

/// The repository of `app` when it names a non-empty one.
pub open spec fn has_repository(app: App) -> bool {
    app.repo matches Some(r) && r@.len() > 0
}

/// The latest version of `app` is resolved without any network request or
/// process: there is neither a repository nor a version command.
pub open spec fn resolves_offline(app: App) -> bool {
    !has_repository(app) && app.version_command is None
}

/// The source of the latest version: the repository when there is one, else
/// the version command when there is one, else none.
pub fn latest_version_source(app: &App) -> (r: LatestSource)
    ensures
        has_repository(*app) ==> (r matches LatestSource::Repository(x) && x@ == app.repo->0@),
        !has_repository(*app) && app.version_command is Some ==> (r matches LatestSource::Command(c)
            && c@ == app.version_command->0@),
        r is Unknown <==> resolves_offline(*app),
{
    let repo = app.get_repo();
    if repo.unicode_len() > 0 {
        return LatestSource::Repository(String::from_str(repo));
    }
    match &app.version_command {
        Some(c) => LatestSource::Command(c.clone()),
        None => LatestSource::Unknown,
    }
}

impl AppStatus {
    /// Records the version in a release tag, when the tag holds one.
    pub fn apply_release_tag(&mut self, tag: &str)
        ensures
            final(self).app == old(self).app,
            final(self).current_version == old(self).current_version,
            final(self).pixi_managed == old(self).pixi_managed,
            match extracted_version(tag@) {
                Some(v) => final(self).latest_version matches Some(l) && l@ == v,
                None => final(self).latest_version == old(self).latest_version,
            },
    {
        if let Some(v) = extract_version_from_string(tag) {
            self.set_latest_version(v);
        }
    }

    /// Takes the result of the version command: a failure is an error that
    /// carries the command and its stderr; else the version in its output,
    /// when there is one, is recorded.
    pub fn apply_command_output(
        &mut self,
        command: &str,
        success: bool,
        stdout: &str,
        stderr: &str,
    ) -> (r: Result<(), InstallError>)
        ensures
            final(self).app == old(self).app,
            final(self).current_version == old(self).current_version,
            final(self).pixi_managed == old(self).pixi_managed,
            !success ==> final(self).latest_version == old(self).latest_version && (r matches Err(
                InstallError::CommandFailed { command: c, stderr: e },
            ) && c@ == command@ && e@ == stderr@),
            success ==> r is Ok && match extracted_version(stdout@) {
                Some(v) => final(self).latest_version matches Some(l) && l@ == v,
                None => final(self).latest_version == old(self).latest_version,
            },
    {
        if !success {
            return Err(
                InstallError::CommandFailed {
                    command: String::from_str(command),
                    stderr: String::from_str(stderr),
                },
            );
        }
        self.apply_release_tag(stdout);
        Ok(())
    }
}

/// The text by which the package manager reports that it manages nothing.
pub open spec fn unmanaged_marker() -> Seq<char> {
    "No global environments found"@
}

/// Whether another package manager provides the binary: only when that
/// manager could be run and its listing lacks the "nothing managed" text.
pub fn externally_managed(listing: Option<&str>) -> (r: bool)
    ensures
        r == (listing matches Some(l) && !contains(l@, unmanaged_marker())),
{
    match listing {
        Some(l) => !str_contains(l, "No global environments found"),
        None => false,
    }
}

} // verus!
