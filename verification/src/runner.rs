//! From a command line to the executable to run.
//!
//! [`run_application`] is the whole pipeline as a function of what is known
//! so far: it says what to find out or do next, and the caller reports back
//! what came of it. Nothing here reads the environment, the network or the
//! file system.

use vstd::prelude::*;
use vstd::string::*;
use crate::cli::{Cli, CliView};
use crate::paths::{
    binary_candidates, binary_candidates_of, first_present, install_root,
    lemma_candidates_under_root, resolve_binary_path, resolve_cargox_binary_path,
    is_under, versioned_binary_path, versioned_path, Host, PathError,
};
use crate::registry::{
    registry_request, request_for, RegistryError, RegistryErrorView, RegistryRequest,
    RegistryRequestView,
};
use crate::target::{
    parse_spec, parsed_spec, SpecError, Target, TargetView, VersionSpec, VersionSpecView,
};
use crate::text::texts;
use crate::version::{Version, VersionReq};

verus! {

/// What is known so far.
#[derive(Debug)]
pub enum Progress {
    /// Nothing yet.
    Started,
    /// The executable was looked up without regard to its version:
    /// `on_path` is where `PATH` has it, and `present` says of each file
    /// that was to be probed whether it exists.
    Looked { on_path: Option<String>, present: Vec<bool> },
    /// The registry was asked and a version chosen from its answer, or not.
    Resolved { outcome: Result<Version, RegistryError> },
    /// The place of `version` was probed: `present` says whether the
    /// executable is there.
    Probed { version: Version, present: bool },
    /// `version` was installed, and `present` says whether the executable
    /// now is at its place.
    Installed { version: Version, present: bool },
}

/// The mathematical value of a [`Progress`].
pub enum ProgressView {
    Started,
    Looked { on_path: Option<Seq<char>>, present: Seq<bool> },
    Resolved { outcome: Result<Seq<char>, RegistryErrorView> },
    Probed { version: Seq<char>, present: bool },
    Installed { version: Seq<char>, present: bool },
}

impl View for Progress {
    type V = ProgressView;

    open spec fn view(&self) -> ProgressView {
        match self {
            Progress::Started => ProgressView::Started,
            Progress::Looked { on_path, present } => ProgressView::Looked {
                on_path: match on_path {
                    Some(path) => Some(path@),
                    None => None,
                },
                present: present@,
            },
            Progress::Resolved { outcome } => ProgressView::Resolved {
                outcome: match outcome {
                    Ok(version) => Ok(version@),
                    Err(e) => Err(e@),
                },
            },
            Progress::Probed { version, present } => ProgressView::Probed {
                version: version@,
                present: *present,
            },
            Progress::Installed { version, present } => ProgressView::Installed {
                version: version@,
                present: *present,
            },
        }
    }
}

/// Why the pipeline gave up.
#[derive(Debug)]
pub enum RunError {
    Registry(RegistryError),
    Path(PathError),
}

/// The mathematical value of a [`RunError`].
pub enum RunErrorView {
    Registry(RegistryErrorView),
    Path(PathError),
}

impl View for RunError {
    type V = RunErrorView;

    open spec fn view(&self) -> RunErrorView {
        match self {
            RunError::Registry(e) => RunErrorView::Registry(e@),
            RunError::Path(e) => RunErrorView::Path(*e),
        }
    }
}

/// What to do next.
#[derive(Debug)]
pub enum Action {
    /// Look for `name` on `PATH` and probe `files`; report
    /// [`Progress::Looked`].
    LookUp { name: String, files: Vec<String> },
    /// Send `request` to the registry, choose from its answer the highest
    /// version that satisfies `requirement`, and report
    /// [`Progress::Resolved`].
    FetchVersions { request: RegistryRequest, requirement: Option<VersionReq> },
    /// Probe `path`, the place of `version`; report [`Progress::Probed`].
    ProbeVersion { version: Version, path: String },
    /// Install `version`, then probe `path`, its place; report
    /// [`Progress::Installed`], or fail as the installation failed.
    Install { version: Version, path: String },
    /// Run the executable at `path` with `args`, and end as it ends.
    Execute { path: String, args: Vec<String> },
    /// Give up.
    Fail(RunError),
}

/// The mathematical value of an [`Action`].
pub enum ActionView {
    LookUp { name: Seq<char>, files: Seq<Seq<char>> },
    FetchVersions { request: RegistryRequestView, requirement: Option<Seq<char>> },
    ProbeVersion { version: Seq<char>, path: Seq<char> },
    Install { version: Seq<char>, path: Seq<char> },
    Execute { path: Seq<char>, args: Seq<Seq<char>> },
    Fail(RunErrorView),
}

impl View for Action {
    type V = ActionView;

    open spec fn view(&self) -> ActionView {
        match self {
            Action::LookUp { name, files } => ActionView::LookUp {
                name: name@,
                files: texts(files@),
            },
            Action::FetchVersions { request, requirement } => ActionView::FetchVersions {
                request: request@,
                requirement: match requirement {
                    Some(req) => Some(req@),
                    None => None,
                },
            },
            Action::ProbeVersion { version, path } => ActionView::ProbeVersion {
                version: version@,
                path: path@,
            },
            Action::Install { version, path } => ActionView::Install {
                version: version@,
                path: path@,
            },
            Action::Execute { path, args } => ActionView::Execute {
                path: path@,
                args: texts(args@),
            },
            Action::Fail(e) => ActionView::Fail(e@),
        }
    }
}

/// The requirement to resolve against the registry: the one that was asked
/// for, or none where any version or the newest was.
pub open spec fn wanted_requirement(version: VersionSpecView) -> Option<Seq<char>> {
    match version {
        VersionSpecView::Requirement(req) => Some(req),
        _ => None,
    }
}

/// Whether an executable that is found without regard to its version will
/// do: nothing forces a new installation, and no version was asked for.
pub open spec fn may_reuse(force: bool, version: VersionSpecView) -> bool {
    !force && version is Unspecified
}

/// The target that a command line names: the crate and version of its
/// specification, and the executable that was chosen, or else the one that
/// is called like the crate.
pub open spec fn target_of(cli: CliView) -> Result<TargetView, SpecError> {
    match parsed_spec(cli.crate_spec) {
        Ok((name, version)) => Ok(
            TargetView {
                crate_name: name,
                version,
                binary: match cli.bin {
                    Some(bin) => bin,
                    None => name,
                },
            },
        ),
        Err(e) => Err(e),
    }
}

/// Where an executable is found without regard to its version: where `PATH`
/// has it, else the first of the probed files that exists.
pub open spec fn found_binary(
    name: Seq<char>,
    host: Host,
    on_path: Option<Seq<char>>,
    present: Seq<bool>,
) -> Option<Seq<char>> {
    match on_path {
        Some(found) => Some(found),
        None => {
            let files = binary_candidates_of(name, host);
            match first_present(present, files.len() as int) {
                Some(at) => Some(files[at]),
                None => None,
            }
        },
    }
}

/// The request to the registry for the target's crate.
pub open spec fn fetch_for(target: TargetView) -> ActionView {
    ActionView::FetchVersions {
        request: request_for(target.crate_name),
        requirement: wanted_requirement(target.version),
    }
}

/// The next step of the pipeline.
///
/// An executable that is installed is run as it is where no version was
/// asked for and nothing forces a new installation. Otherwise the registry
/// decides on the version, which is run from its place if it is there and
/// nothing forces a new installation, and installed first if not.
pub open spec fn run_step(
    cli: CliView,
    target: TargetView,
    host: Host,
    progress: ProgressView,
) -> ActionView {
    match progress {
        ProgressView::Started => if may_reuse(cli.force, target.version) {
            ActionView::LookUp {
                name: target.binary,
                files: binary_candidates_of(target.binary, host),
            }
        } else {
            fetch_for(target)
        },
        ProgressView::Looked { on_path, present } => match found_binary(
            target.binary,
            host,
            on_path,
            present,
        ) {
            Some(path) if may_reuse(cli.force, target.version) => ActionView::Execute {
                path,
                args: cli.args,
            },
            _ => fetch_for(target),
        },
        ProgressView::Resolved { outcome } => match outcome {
            Err(e) => ActionView::Fail(RunErrorView::Registry(e)),
            Ok(version) => match install_root(host) {
                None => ActionView::Fail(RunErrorView::Path(PathError::NoInstallDirectory)),
                Some(root) => {
                    let path = versioned_path(root, target.binary, version, host.platform);
                    if cli.force {
                        ActionView::Install { version, path }
                    } else {
                        ActionView::ProbeVersion { version, path }
                    }
                },
            },
        },
        ProgressView::Probed { version, present } => match install_root(host) {
            None => ActionView::Fail(RunErrorView::Path(PathError::NoInstallDirectory)),
            Some(root) => {
                let path = versioned_path(root, target.binary, version, host.platform);
                if present && !cli.force {
                    ActionView::Execute { path, args: cli.args }
                } else {
                    ActionView::Install { version, path }
                }
            },
        },
        ProgressView::Installed { version, present } => match install_root(host) {
            None => ActionView::Fail(RunErrorView::Path(PathError::NoInstallDirectory)),
            Some(root) => if present {
                ActionView::Execute {
                    path: versioned_path(root, target.binary, version, host.platform),
                    args: cli.args,
                }
            } else {
                ActionView::Fail(RunErrorView::Path(PathError::BinaryNotFound))
            },
        },
    }
}

/// The exit code of the whole run: that of the executable, or 1 where a
/// signal ended it.
pub open spec fn exit_code_of(code: Option<i32>) -> i32 {
    match code {
        Some(c) => c,
        None => 1,
    }
}

/// A version that is asked for and already installed is run at once: where
/// nothing forces a new installation, a request for a version leads to the
/// registry, the version chosen there to a probe of its place, and a probe
/// that finds the executable to its execution with the caller's arguments.
/// No step on that way installs anything.
pub proof fn lemma_cached_version_runs_directly(
    cli: CliView,
    target: TargetView,
    host: Host,
    version: Seq<char>,
)
    requires
        !cli.force,
        !(target.version is Unspecified),
        install_root(host) is Some,
    ensures
        ({
            let place = versioned_path(
                install_root(host)->0,
                target.binary,
                version,
                host.platform,
            );
            &&& run_step(cli, target, host, ProgressView::Started) == fetch_for(target)
            &&& run_step(cli, target, host, ProgressView::Resolved { outcome: Ok(version) })
                == ActionView::ProbeVersion { version, path: place }
            &&& run_step(cli, target, host, ProgressView::Probed { version, present: true })
                == ActionView::Execute { path: place, args: cli.args }
        }),
{
}

/// Nothing is installed unless a new installation is forced or the version
/// was found missing from its place.
pub proof fn lemma_installs_only_when_needed(
    cli: CliView,
    target: TargetView,
    host: Host,
    progress: ProgressView,
)
    requires
        run_step(cli, target, host, progress) is Install,
    ensures
        cli.force || progress matches ProgressView::Probed { present: false, .. },
{
}

/// Whatever is run comes from `PATH` or from under the install root, and
/// from nowhere else.
pub proof fn lemma_runs_only_managed_executables(
    cli: CliView,
    target: TargetView,
    host: Host,
    progress: ProgressView,
)
    requires
        run_step(cli, target, host, progress) is Execute,
    ensures
        ({
            let path = run_step(cli, target, host, progress)->Execute_path;
            ||| progress matches ProgressView::Looked { on_path: Some(found), .. } && path == found
            ||| install_root(host) matches Some(root) && is_under(path, root)
        }),
{
    let path = run_step(cli, target, host, progress)->Execute_path;
    match progress {
        ProgressView::Looked { on_path, present } => {
            if on_path is None {
                let files = binary_candidates_of(target.binary, host);
                let at = first_present(present, files.len() as int)->0;
                crate::paths::lemma_first_present(present, files.len() as int);
                lemma_candidates_under_root(target.binary, host, at);
            }
        },
        ProgressView::Probed { version, .. } => {
            crate::paths::lemma_versioned_path_under_root(
                install_root(host)->0,
                target.binary,
                version,
                host.platform,
            );
        },
        ProgressView::Installed { version, .. } => {
            crate::paths::lemma_versioned_path_under_root(
                install_root(host)->0,
                target.binary,
                version,
                host.platform,
            );
        },
        _ => {},
    }
}

/// Reads the target from the command line.
pub fn parse_target_from_cli(cli: &Cli) -> (r: Result<Target, SpecError>)
    ensures
        match (r, target_of(cli@)) {
            (Ok(target), Ok(expected)) => target@ == expected,
            (Err(e), Err(expected)) => e == expected,
            _ => false,
        },
{
    let (crate_name, version) = match parse_spec(cli.crate_spec.as_str()) {
        Ok(parsed) => parsed,
        Err(e) => {
            return Err(e);
        },
    };
    let binary = match &cli.bin {
        Some(bin) => bin.clone(),
        None => crate_name.clone(),
    };
    Ok(Target { crate_name, version, binary })
}

/// The mathematical value of an optional text.
pub open spec fn text_of(text: Option<String>) -> Option<Seq<char>> {
    match text {
        Some(t) => Some(t@),
        None => None,
    }
}

/// Looks an executable up without regard to its version; `None` where it is
/// not installed. The arguments are those of
/// [`resolve_binary_path`](crate::paths::resolve_binary_path).
pub fn find_existing_binary(
    name: &str,
    host: &Host,
    on_path: Option<String>,
    present: &Vec<bool>,
) -> (r: Option<String>)
    ensures
        text_of(r) == found_binary(name@, *host, text_of(on_path), present@),
{
    match resolve_binary_path(name, host, on_path, present) {
        Ok(path) => Some(path),
        Err(_) => None,
    }
}

/// Whether to run what is installed rather than install: nothing forces a
/// new installation, no version was asked for, and the executable was found.
pub fn should_use_existing_binary(cli: &Cli, target: &Target, existing: &Option<String>) -> (r:
    bool)
    ensures
        r == (may_reuse(cli.force, target.version@) && existing is Some),
{
    if cli.force {
        return false;
    }
    match target.version {
        VersionSpec::Unspecified => existing.is_some(),
        _ => false,
    }
}

/// Finds the executable once it is installed: at the place of its version
/// where it has one, else wherever an executable of that name is found.
pub fn locate_installed_binary(
    target: &Target,
    version: Option<&Version>,
    host: &Host,
    on_path: Option<String>,
    present: &Vec<bool>,
    installed: bool,
) -> (r: Result<String, PathError>)
    ensures
        match version {
            Some(v) => match r {
                Ok(path) => {
                    &&& installed
                    &&& install_root(*host) matches Some(root)
                    &&& path@ == versioned_path(root, target.binary@, v@, host.platform)
                },
                Err(e) => if install_root(*host) is None {
                    e == PathError::NoInstallDirectory
                } else {
                    !installed && e == PathError::BinaryNotFound
                },
            },
            None => match found_binary(target.binary@, *host, text_of(on_path), present@) {
                Some(found) => r matches Ok(path) && path@ == found,
                None => r == Err::<String, PathError>(PathError::BinaryNotFound),
            },
        },
{
    match version {
        Some(v) => resolve_cargox_binary_path(target.binary.as_str(), v, host, installed),
        None => resolve_binary_path(target.binary.as_str(), host, on_path, present),
    }
}

/// The exit code of the whole run: that of the executable, or 1 where a
/// signal ended it.
pub fn exit_with_status(code: Option<i32>) -> (r: i32)
    ensures
        r == exit_code_of(code),
{
    match code {
        Some(c) => c,
        None => 1,
    }
}

/// A copy of `list`.
fn copy_of(list: &Vec<String>) -> (r: Vec<String>)
    ensures
        texts(r@) == texts(list@),
{
    let mut out: Vec<String> = Vec::new();
    let mut i: usize = 0;
    while i < list.len()
        invariant
            i <= list.len(),
            out@.len() == i,
            forall|k: int| 0 <= k < i ==> (#[trigger] out@[k])@ == list@[k]@,
        decreases list.len() - i,
    {
        out.push(list[i].clone());
        i += 1;
    }
    assert(texts(out@) =~= texts(list@));
    out
}

/// The request to the registry for the target's crate.
fn fetch_versions(target: &Target) -> (r: Action)
    ensures
        r@ == fetch_for(target@),
{
    Action::FetchVersions {
        request: registry_request(target.crate_name.as_str()),
        requirement: match &target.version {
            VersionSpec::Requirement(req) => Some(req.clone()),
            _ => None,
        },
    }
}

/// Says what to do next to have the target run.
///
/// The caller starts with [`Progress::Started`], carries out the action
/// that comes back and reports what came of it, until the action is
/// [`Action::Execute`] or [`Action::Fail`]. What the action is, [`run_step`]
/// says.
pub fn run_application(cli: &Cli, target: &Target, host: &Host, progress: Progress) -> (r: Action)
    ensures
        r@ == run_step(cli@, target@, *host, progress@),
{
    match progress {
        Progress::Started => {
            if !cli.force && matches!(target.version, VersionSpec::Unspecified) {
                let files = binary_candidates(target.binary.as_str(), host);
                assert(texts(files@) =~= binary_candidates_of(target.binary@, *host));
                Action::LookUp { name: target.binary.clone(), files }
            } else {
                fetch_versions(target)
            }
        },
        Progress::Looked { on_path, present } => {
            let existing = find_existing_binary(target.binary.as_str(), host, on_path, &present);
            if should_use_existing_binary(cli, target, &existing) {
                match existing {
                    Some(path) => Action::Execute { path, args: copy_of(&cli.args) },
                    None => fetch_versions(target),
                }
            } else {
                fetch_versions(target)
            }
        },
        Progress::Resolved { outcome } => {
            match outcome {
                Err(e) => Action::Fail(RunError::Registry(e)),
                Ok(version) => {
                    match versioned_binary_path(target.binary.as_str(), &version, host) {
                        Ok(path) => if cli.force {
                            Action::Install { version, path }
                        } else {
                            Action::ProbeVersion { version, path }
                        },
                        Err(e) => Action::Fail(RunError::Path(e)),
                    }
                },
            }
        },
        Progress::Probed { version, present } => {
            match versioned_binary_path(target.binary.as_str(), &version, host) {
                Ok(path) => if present && !cli.force {
                    Action::Execute { path, args: copy_of(&cli.args) }
                } else {
                    Action::Install { version, path }
                },
                Err(e) => Action::Fail(RunError::Path(e)),
            }
        },
        Progress::Installed { version, present } => {
            match locate_installed_binary(
                target,
                Some(&version),
                host,
                None,
                &Vec::new(),
                present,
            ) {
                Ok(path) => Action::Execute { path, args: copy_of(&cli.args) },
                Err(e) => Action::Fail(RunError::Path(e)),
            }
        },
    }
}

} // verus!
