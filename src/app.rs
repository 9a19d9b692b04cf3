//! Applications of the configuration and their per-run status.

use vstd::prelude::*;

use crate::error::InstallError;
use crate::version::{needs_update, update_needed};

verus! {

/// The text of an optional string.
pub open spec fn opt_view(o: Option<String>) -> Option<Seq<char>> {
    match o {
        Some(s) => Some(s@),
        None => None,
    }
}

/// A copy of an optional string.
pub fn clone_opt(o: &Option<String>) -> (r: Option<String>)
    ensures
        r == *o,
{
    match o {
        Some(s) => Some(s.clone()),
        None => None,
    }
}

/// An application: its binary and where its releases or commands come from.
#[derive(Debug)]
pub struct App {
    pub name: String,
    pub bin: String,
    pub description: Option<String>,
    pub repo: Option<String>,
    pub install_command: Option<String>,
    pub update_command: Option<String>,
    pub version_command: Option<String>,
}

impl Clone for App {
    fn clone(&self) -> (r: Self)
        ensures
            r == *self,
    {
        App {
            name: self.name.clone(),
            bin: self.bin.clone(),
            description: clone_opt(&self.description),
            repo: clone_opt(&self.repo),
            install_command: clone_opt(&self.install_command),
            update_command: clone_opt(&self.update_command),
            version_command: clone_opt(&self.version_command),
        }
    }
}

/// How an application is installed.
#[derive(Debug, PartialEq, Eq, Structural, Clone, Copy)]
pub enum InstallationMethod {
    /// Download of a release asset.
    GitHub,
    /// The application's own install or update command.
    Commands,
}

impl App {
    /// The method that the populated fields select.
    pub open spec fn method_spec(&self) -> InstallationMethod {
        if self.install_command is Some || self.update_command is Some {
            InstallationMethod::Commands
        } else {
            InstallationMethod::GitHub
        }
    }

    /// The repository as `owner/name`, or the empty text when there is none.
    pub fn get_repo(&self) -> (r: &str)
        ensures
            r@ == match self.repo {
                Some(repo) => repo@,
                None => Seq::<char>::empty(),
            },
    {
        match &self.repo {
            Some(repo) => repo.as_str(),
            None => {
                proof {
                    reveal_strlit("");
                }
                ""
            },
        }
    }

    /// Custom commands when an install or update command is given, else a
    /// release download.
    pub fn installation_method(&self) -> (r: InstallationMethod)
        ensures
            r == self.method_spec(),
    {
        if self.install_command.is_some() || self.update_command.is_some() {
            InstallationMethod::Commands
        } else {
            InstallationMethod::GitHub
        }
    }
}

/// What a check found for one application.
#[derive(Debug)]
pub struct AppStatus {
    pub app: App,
    pub current_version: Option<String>,
    pub latest_version: Option<String>,
    pub pixi_managed: Option<bool>,
}

/// How a status reads to an operator.
#[derive(Debug, PartialEq, Eq, Structural, Clone, Copy)]
pub enum StatusKind {
    /// Another package manager provides the binary.
    Managed,
    /// Installed, and a newer version exists.
    UpdateAvailable,
    /// Installed at the latest version.
    UpToDate,
    /// Not installed (or undetectable), latest version known.
    NotInstalled,
    /// Installed, latest version unknown.
    LatestUnknown,
    /// Neither version known.
    Unknown,
}

impl AppStatus {
    pub open spec fn update_needed_spec(&self) -> bool {
        update_needed(opt_view(self.current_version), opt_view(self.latest_version))
    }

    /// A fresh status: the latest version is not known yet.
    pub fn new(app: &App, pixi_managed: bool, current_version: Option<String>) -> (r: Self)
        ensures
            r.app == *app,
            r.current_version == current_version,
            r.latest_version is None,
            r.pixi_managed == Some(pixi_managed),
    {
        AppStatus {
            pixi_managed: Some(pixi_managed),
            current_version,
            latest_version: None,
            app: app.clone(),
        }
    }

    /// Whether another package manager provides the binary.
    pub fn is_pixi_managed(&self) -> (r: bool)
        ensures
            r == (self.pixi_managed == Some(true)),
    {
        match self.pixi_managed {
            Some(m) => m,
            None => false,
        }
    }

    /// Records the latest available version.
    pub fn set_latest_version(&mut self, version: String)
        ensures
            final(self).latest_version == Some(version),
            final(self).app == old(self).app,
            final(self).current_version == old(self).current_version,
            final(self).pixi_managed == old(self).pixi_managed,
    {
        self.latest_version = Some(version);
    }

    /// Whether the latest version should be installed.
    pub fn is_version_update_needed(&self) -> (r: bool)
        ensures
            r == self.update_needed_spec(),
    {
        let current = match &self.current_version {
            Some(c) => Some(c.as_str()),
            None => None,
        };
        let latest = match &self.latest_version {
            Some(l) => Some(l.as_str()),
            None => None,
        };
        needs_update(current, latest)
    }

    pub open spec fn kind_spec(&self) -> StatusKind {
        if self.pixi_managed == Some(true) {
            StatusKind::Managed
        } else {
            match (self.current_version, self.latest_version) {
                (Some(_), Some(_)) => if self.update_needed_spec() {
                    StatusKind::UpdateAvailable
                } else {
                    StatusKind::UpToDate
                },
                (None, Some(_)) => StatusKind::NotInstalled,
                (Some(_), None) => StatusKind::LatestUnknown,
                (None, None) => StatusKind::Unknown,
            }
        }
    }

    /// How the status reads: managed elsewhere first, then by which versions
    /// are known and whether an update is needed.
    pub fn kind(&self) -> (r: StatusKind)
        ensures
            r == self.kind_spec(),
    {
        if self.is_pixi_managed() {
            return StatusKind::Managed;
        }
        match (&self.current_version, &self.latest_version) {
            (Some(_), Some(_)) => if self.is_version_update_needed() {
                StatusKind::UpdateAvailable
            } else {
                StatusKind::UpToDate
            },
            (None, Some(_)) => StatusKind::NotInstalled,
            (Some(_), None) => StatusKind::LatestUnknown,
            (None, None) => StatusKind::Unknown,
        }
    }
}

} // verus!

verus! {

/// The applications of a configuration, in order.
#[derive(Debug)]
pub struct Config {
    pub apps: Vec<App>,
}

/// An application from literal texts.
fn literal_app(
    name: &str,
    description: &str,
    repo: &str,
    install_command: Option<&str>,
    update_command: Option<&str>,
) -> (r: App)
    ensures
        r.name@ == name@,
        r.bin@ == name@,
        r.description matches Some(d) && d@ == description@,
        r.repo matches Some(x) && x@ == repo@,
        opt_view(r.install_command) == match install_command {
            Some(c) => Some(c@),
            None => None,
        },
        opt_view(r.update_command) == match update_command {
            Some(c) => Some(c@),
            None => None,
        },
        r.version_command is None,
{
    App {
        name: String::from_str(name),
        bin: String::from_str(name),
        description: Some(String::from_str(description)),
        repo: Some(String::from_str(repo)),
        install_command: match install_command {
            Some(c) => Some(String::from_str(c)),
            None => None,
        },
        update_command: match update_command {
            Some(c) => Some(String::from_str(c)),
            None => None,
        },
        version_command: None,
    }
}

impl Config {
    /// The configuration written when none exists: `dust` and `bat` from their
    /// releases, and `uv` through its install script and self-update command.
    pub fn sample() -> (r: Config)
        ensures
            r.apps@.len() == 3,
            r.apps@[0].name@ == "dust"@,
            (r.apps@[0].repo matches Some(x) && x@ == "bootandy/dust"@),
            r.apps@[1].name@ == "bat"@,
            (r.apps@[1].repo matches Some(x) && x@ == "sharkdp/bat"@),
            r.apps@[2].name@ == "uv"@,
            (r.apps@[2].repo matches Some(x) && x@ == "astral-sh/uv"@),
            r.apps@[0].install_command is None && r.apps@[1].install_command is None,
            (r.apps@[2].install_command matches Some(c) && c@
                == "{download(https://astral.sh/uv/install.sh, /tmp/uv-install.sh)} && sh /tmp/uv-install.sh --bin-dir {bin_dir} --yes"@),
            (r.apps@[2].update_command matches Some(c) && c@ == "{bin_path} self update"@),
            r.apps@[0].update_command is None && r.apps@[1].update_command is None,
            forall|i: int| 0 <= i < 3 ==> (#[trigger] r.apps@[i]).bin@ == r.apps@[i].name@
                && r.apps@[i].version_command is None,
    {
        let mut apps: Vec<App> = Vec::new();
        apps.push(literal_app("dust", "A disk usage analyzer", "bootandy/dust", None, None));
        apps.push(
            literal_app("bat", "A cat clone with syntax highlighting", "sharkdp/bat", None, None),
        );
        apps.push(
            literal_app(
                "uv",
                "A fast python package manager",
                "astral-sh/uv",
                Some(
                    "{download(https://astral.sh/uv/install.sh, /tmp/uv-install.sh)} && sh /tmp/uv-install.sh --bin-dir {bin_dir} --yes",
                ),
                Some("{bin_path} self update"),
            ),
        );
        Config { apps }
    }
}

pub open spec fn named_pred(apps: Seq<App>, name: Seq<char>) -> spec_fn(int) -> bool {
    |i: int| apps[i].name@ == name || apps[i].bin@ == name
}

/// The applications to work on: all of them without a name; else the first
/// whose name or binary name is the given one, or `AppNotFound`.
pub fn filter_apps(apps: &[App], app_name: Option<String>) -> (r: Result<Vec<App>, InstallError>)
    ensures
        match app_name {
            None => r matches Ok(v) && v@ == apps@,
            Some(wanted) => match crate::version::first_from(
                apps@.len() as int,
                0,
                named_pred(apps@, wanted@),
            ) {
                Some(i) => r matches Ok(v) && v@ == seq![apps@[i]],
                None => r matches Err(InstallError::AppNotFound { name }) && name@ == wanted@,
            },
        },
{
    let len = apps.len();
    match &app_name {
        None => {
            let mut v: Vec<App> = Vec::new();
            let mut i: usize = 0;
            while i < len
                invariant
                    len == apps@.len(),
                    i <= len,
                    v@ == apps@.subrange(0, i as int),
                decreases len - i,
            {
                v.push(apps[i].clone());
                i = i + 1;
                assert(v@ =~= apps@.subrange(0, i as int));
            }
            assert(v@ =~= apps@);
            Ok(v)
        },
        Some(n) => {
            let ghost p = named_pred(apps@, n@);
            let mut i: usize = 0;
            while i < len
                invariant
                    len == apps@.len(),
                    i <= len,
                    p == named_pred(apps@, n@),
                    app_name == Some(*n),
                    crate::version::first_from(len as int, 0, p) == crate::version::first_from(
                        len as int,
                        i as int,
                        p,
                    ),
                decreases len - i,
            {
                if apps[i].name.eq(n) || apps[i].bin.eq(n) {
                    assert(p(i as int));
                    let mut v: Vec<App> = Vec::new();
                    v.push(apps[i].clone());
                    assert(v@ =~= seq![apps@[i as int]]);
                    return Ok(v);
                }
                assert(!p(i as int));
                i = i + 1;
            }
            Err(InstallError::AppNotFound { name: n.clone() })
        },
    }
}

/// An application with no repository, no install or update command and no
/// version command resolves its latest version offline (its source is
/// `LatestSource::Unknown`: no request, no process); with the latest version
/// left unknown, its status never reads as installable or updatable and no
/// update is needed, so an install plan skips it (`plan_install`).
pub proof fn lemma_no_channel_is_noop(status: AppStatus)
    requires
        !crate::resolve::has_repository(status.app),
        status.app.install_command is None,
        status.app.update_command is None,
        status.app.version_command is None,
        status.latest_version is None,
    ensures
        crate::resolve::resolves_offline(status.app),
        !status.update_needed_spec(),
        status.app.method_spec() == InstallationMethod::GitHub,
        status.kind_spec() == StatusKind::Managed || status.kind_spec() == StatusKind::LatestUnknown
            || status.kind_spec() == StatusKind::Unknown,
{
}

} // verus!
