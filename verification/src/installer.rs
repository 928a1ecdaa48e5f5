//! Installing a crate through one of two external tools.
//!
//! `cargo binstall` fetches a pre-built artifact; `cargo install` builds from
//! source. Either runs in an environment from which every variable that
//! could redirect it has been removed, and installs into the private root.
//! Running the tool and touching the file system is the caller's part:
//! [`ensure_installed`] says, step by step, what to do next.

use vstd::prelude::*;
use vstd::string::*;
use crate::cli::{Cli, CliView};
use crate::paths::{
    candidate_file_names, file_names, first_present, get_install_dir, install_root, join, joined,
    versioned_binary_path, versioned_file_name, versioned_path, Host, Platform,
};
use crate::target::Target;
use crate::text::{decimal, decimal_text, reads, texts};
use crate::version::Version;

verus! {

/// The external tool that installs.
#[derive(Debug, Clone, Copy, PartialEq, Eq, Structural)]
pub enum Backend {
    /// `cargo binstall`: a pre-built artifact, no compilation.
    Binstall,
    /// `cargo install`: built from source.
    CargoInstall,
}

/// Why an installation failed.
#[derive(Debug, Clone, Copy, PartialEq, Eq)]
pub enum InstallError {
    /// No install root can be determined.
    NoInstallDirectory,
    /// The tool did not succeed. `code` is its exit code, or `None` where a
    /// signal ended it.
    ExternalToolFailed { backend: Backend, code: Option<i32> },
    /// The tool reported success but left no executable behind.
    InstallationIncomplete,
}

/// One run of an external tool.
#[derive(Debug)]
pub struct Invocation {
    /// The program to start.
    pub program: String,
    /// Its arguments.
    pub args: Vec<String>,
    /// Its whole environment: nothing else is inherited.
    pub env: Vec<(String, String)>,
    /// The directory that has to exist before the program starts.
    pub bin_dir: String,
}

/// The mathematical value of an [`Invocation`].
pub struct InvocationView {
    pub program: Seq<char>,
    pub args: Seq<Seq<char>>,
    pub env: Seq<(Seq<char>, Seq<char>)>,
    pub bin_dir: Seq<char>,
}

impl View for Invocation {
    type V = InvocationView;

    open spec fn view(&self) -> InvocationView {
        InvocationView {
            program: self.program@,
            args: texts(self.args@),
            env: pairs(self.env@),
            bin_dir: self.bin_dir@,
        }
    }
}

/// The names and values that an environment holds.
pub open spec fn pairs(env: Seq<(String, String)>) -> Seq<(Seq<char>, Seq<char>)> {
    Seq::new(env.len(), |i: int| (env[i].0@, env[i].1@))
}

/// The mathematical value of an optional version.
pub open spec fn version_view(version: Option<&Version>) -> Option<Seq<char>> {
    match version {
        Some(v) => Some(v@),
        None => None,
    }
}

/// The tool to use: the fast one unless a build from source was asked for
/// or the fast one is not to be found.
pub open spec fn backend_of(build_from_source: bool, binstall_available: bool) -> Backend {
    if !build_from_source && binstall_available {
        Backend::Binstall
    } else {
        Backend::CargoInstall
    }
}

/// Whether a variable of this name is kept from the external tools.
pub open spec fn is_scrubbed(name: Seq<char>) -> bool {
    ||| name == "CARGO_INSTALL_ROOT"@
    ||| name == "CARGO_HOME"@
    ||| name == "CARGO_BUILD_TARGET_DIR"@
    ||| name == "CARGO_TARGET_DIR"@
    ||| name == "BINSTALL_INSTALL_PATH"@
    ||| name == "RUSTUP_HOME"@
    ||| name == "RUSTUP_TOOLCHAIN"@
}

/// `env` without the variables that are kept from the external tools.
pub open spec fn scrubbed(env: Seq<(Seq<char>, Seq<char>)>) -> Seq<(Seq<char>, Seq<char>)>
    decreases env.len(),
{
    if env.len() == 0 {
        Seq::empty()
    } else if is_scrubbed(env.last().0) {
        scrubbed(env.drop_last())
    } else {
        scrubbed(env.drop_last()).push(env.last())
    }
}

/// The environment of an external tool: `env` scrubbed, then
/// `CARGO_INSTALL_ROOT` set to the install root.
pub open spec fn sandboxed(env: Seq<(Seq<char>, Seq<char>)>, root: Seq<char>) -> Seq<
    (Seq<char>, Seq<char>),
> {
    scrubbed(env).push(("CARGO_INSTALL_ROOT"@, root))
}

/// `word` where `on` holds, nothing otherwise.
pub open spec fn flag(on: bool, word: Seq<char>) -> Seq<Seq<char>> {
    if on {
        seq![word]
    } else {
        Seq::empty()
    }
}

/// `--bin <name>` where an executable was named.
pub open spec fn bin_selector(bin: Option<Seq<char>>) -> Seq<Seq<char>> {
    match bin {
        Some(name) => seq!["--bin"@, name],
        None => Seq::empty(),
    }
}

/// What to install, as the fast tool wants it: `name` or `name@version`.
pub open spec fn install_spec(crate_name: Seq<char>, version: Option<Seq<char>>) -> Seq<char> {
    match version {
        Some(v) => crate_name + seq!['@'] + v,
        None => crate_name,
    }
}

/// `binstall [--quiet] --no-confirm [--force] [--bin <name>] <name>[@<version>]`
pub open spec fn binstall_args(
    crate_name: Seq<char>,
    cli: CliView,
    version: Option<Seq<char>>,
) -> Seq<Seq<char>> {
    seq!["binstall"@] + flag(cli.quiet, "--quiet"@) + seq!["--no-confirm"@] + flag(
        cli.force,
        "--force"@,
    ) + bin_selector(cli.bin) + seq![install_spec(crate_name, version)]
}

/// `install [--quiet] [--force] --root <root> <name> [--version <version>] [--bin <name>]`
pub open spec fn cargo_install_args(
    crate_name: Seq<char>,
    cli: CliView,
    version: Option<Seq<char>>,
    root: Seq<char>,
) -> Seq<Seq<char>> {
    seq!["install"@] + flag(cli.quiet, "--quiet"@) + flag(cli.force, "--force"@) + seq![
        "--root"@,
        root,
        crate_name,
    ] + (match version {
        Some(v) => seq!["--version"@, v],
        None => Seq::empty(),
    }) + bin_selector(cli.bin)
}

/// The run of the fast tool that installs `crate_name` under `root`.
pub open spec fn binstall_invocation(
    crate_name: Seq<char>,
    cli: CliView,
    version: Option<Seq<char>>,
    env: Seq<(Seq<char>, Seq<char>)>,
    root: Seq<char>,
) -> InvocationView {
    InvocationView {
        program: "cargo"@,
        args: binstall_args(crate_name, cli, version),
        env: sandboxed(env, root),
        bin_dir: joined(root, "bin"@),
    }
}

/// The build from source that installs `crate_name` under `root`, with its
/// intermediate output in `scratch_dir`.
pub open spec fn cargo_install_invocation(
    crate_name: Seq<char>,
    cli: CliView,
    version: Option<Seq<char>>,
    env: Seq<(Seq<char>, Seq<char>)>,
    root: Seq<char>,
    scratch_dir: Seq<char>,
) -> InvocationView {
    InvocationView {
        program: "cargo"@,
        args: cargo_install_args(crate_name, cli, version, root),
        env: sandboxed(env, root).push(("CARGO_TARGET_DIR"@, scratch_dir)),
        bin_dir: joined(root, "bin"@),
    }
}

/// What scrubbing keeps: every entry of the result is an entry of `env`
/// whose name is not scrubbed, and every such entry of `env` is in the
/// result.
pub proof fn lemma_scrubbed(env: Seq<(Seq<char>, Seq<char>)>)
    ensures
        forall|i: int|
            0 <= i < scrubbed(env).len() ==> !is_scrubbed((#[trigger] scrubbed(env)[i]).0)
                && env.contains(scrubbed(env)[i]),
        forall|j: int|
            0 <= j < env.len() && !is_scrubbed((#[trigger] env[j]).0) ==> scrubbed(env).contains(
                env[j],
            ),
    decreases env.len(),
{
    if env.len() > 0 {
        let front = env.drop_last();
        lemma_scrubbed(front);
        let kept = scrubbed(front);
        let out = scrubbed(env);
        assert forall|i: int| 0 <= i < out.len() implies !is_scrubbed((#[trigger] out[i]).0)
            && env.contains(out[i]) by {
            if i < kept.len() {
                assert(out[i] == kept[i]);
                assert(front.contains(kept[i]));
                let j = choose|j: int| 0 <= j < front.len() && front[j] == kept[i];
                assert(env[j] == kept[i]);
            } else {
                assert(out[i] == env.last());
                assert(env[env.len() - 1] == out[i]);
            }
        }
        assert forall|j: int|
            0 <= j < env.len() && !is_scrubbed((#[trigger] env[j]).0) implies out.contains(
            env[j],
        ) by {
            if j < front.len() {
                assert(front[j] == env[j]);
                assert(kept.contains(front[j]));
                let i = choose|i: int| 0 <= i < kept.len() && kept[i] == front[j];
                assert(out[i] == env[j]);
            } else {
                assert(out[out.len() - 1] == env[j]);
            }
        }
    }
}

/// The sandbox: whatever the ambient environment holds, an external tool
/// sees every variable that is not scrubbed as it was, no scrubbed variable
/// as it was, and `CARGO_INSTALL_ROOT` exactly once, set to the install root.
pub proof fn lemma_sandboxed(env: Seq<(Seq<char>, Seq<char>)>, root: Seq<char>)
    ensures
        forall|j: int|
            0 <= j < env.len() && !is_scrubbed((#[trigger] env[j]).0) ==> sandboxed(
                env,
                root,
            ).contains(env[j]),
        forall|i: int|
            0 <= i < sandboxed(env, root).len() - 1 ==> !is_scrubbed(
                (#[trigger] sandboxed(env, root)[i]).0,
            ) && env.contains(sandboxed(env, root)[i]),
        sandboxed(env, root).last() == ("CARGO_INSTALL_ROOT"@, root),
        forall|i: int|
            0 <= i < sandboxed(env, root).len() ==> ((#[trigger] sandboxed(env, root)[i]).0
                == "CARGO_INSTALL_ROOT"@ <==> i == sandboxed(env, root).len() - 1),
{
    lemma_scrubbed(env);
    let kept = scrubbed(env);
    let out = sandboxed(env, root);
    assert forall|j: int|
        0 <= j < env.len() && !is_scrubbed((#[trigger] env[j]).0) implies out.contains(
        env[j],
    ) by {
        let i = choose|i: int| 0 <= i < kept.len() && kept[i] == env[j];
        assert(out[i] == env[j]);
    }
    assert forall|i: int| 0 <= i < out.len() - 1 implies !is_scrubbed((#[trigger] out[i]).0)
        && env.contains(out[i]) by {
        assert(out[i] == kept[i]);
    }
    assert forall|i: int| 0 <= i < out.len() implies ((#[trigger] out[i]).0
        == "CARGO_INSTALL_ROOT"@ <==> i == out.len() - 1) by {
        if i < out.len() - 1 {
            assert(out[i] == kept[i]);
        }
    }
}

/// Chooses the tool: the fast one unless a build from source was asked for
/// or the fast one is not to be found on `PATH`.
pub fn select_backend(cli: &Cli, binstall_available: bool) -> (r: Backend)
    ensures
        r == backend_of(cli.build_from_source, binstall_available),
{
    if !cli.build_from_source && binstall_available {
        Backend::Binstall
    } else {
        Backend::CargoInstall
    }
}

/// Whether a variable of this name is kept from the external tools.
pub fn is_scrubbed_name(name: &String) -> (r: bool)
    ensures
        r == is_scrubbed(name@),
{
    reads(name, "CARGO_INSTALL_ROOT") || reads(name, "CARGO_HOME") || reads(
        name,
        "CARGO_BUILD_TARGET_DIR",
    ) || reads(name, "CARGO_TARGET_DIR") || reads(name, "BINSTALL_INSTALL_PATH") || reads(
        name,
        "RUSTUP_HOME",
    ) || reads(name, "RUSTUP_TOOLCHAIN")
}

/// Builds the environment of an external tool from the ambient one: the
/// scrubbed variables are dropped, whatever their values, and
/// `CARGO_INSTALL_ROOT` is set to `install_dir`.
pub fn sanitize_cargo_env(env: &Vec<(String, String)>, install_dir: &str) -> (r: Vec<
    (String, String),
>)
    ensures
        pairs(r@) == sandboxed(pairs(env@), install_dir@),
{
    let ghost ambient = pairs(env@);
    let mut out: Vec<(String, String)> = Vec::new();
    let mut i: usize = 0;
    assert(ambient.take(0) =~= Seq::empty());
    assert(pairs(out@) =~= Seq::empty());
    while i < env.len()
        invariant
            i <= env.len(),
            ambient == pairs(env@),
            pairs(out@) == scrubbed(ambient.take(i as int)),
        decreases env.len() - i,
    {
        let ghost before = pairs(out@);
        let ghost upto = ambient.take(i + 1);
        assert(upto.drop_last() =~= ambient.take(i as int));
        assert(upto.last() == (env@[i as int].0@, env@[i as int].1@));
        if !is_scrubbed_name(&env[i].0) {
            out.push((env[i].0.clone(), env[i].1.clone()));
            assert(pairs(out@) =~= before.push(upto.last()));
        }
        i += 1;
    }
    assert(ambient.take(env.len() as int) =~= ambient);
    let ghost kept = pairs(out@);
    out.push((String::from_str("CARGO_INSTALL_ROOT"), String::from_str(install_dir)));
    assert(pairs(out@) =~= kept.push(("CARGO_INSTALL_ROOT"@, install_dir@)));
    out
}

/// Appends `word` to `words`.
fn push_word(words: &mut Vec<String>, word: &str)
    ensures
        texts(final(words)@) == texts(old(words)@).push(word@),
{
    let ghost before = texts(words@);
    words.push(String::from_str(word));
    assert(texts(words@) =~= before.push(word@));
}

/// Appends `word` to `words` where `on` holds.
fn push_flag(words: &mut Vec<String>, on: bool, word: &str)
    ensures
        texts(final(words)@) == texts(old(words)@) + flag(on, word@),
{
    let ghost before = texts(words@);
    if on {
        push_word(words, word);
        assert(before.push(word@) =~= before + flag(on, word@));
    } else {
        assert(before =~= before + flag(on, word@));
    }
}

/// Appends `--bin <name>` to `words` where an executable was named.
fn push_bin_selector(words: &mut Vec<String>, cli: &Cli)
    ensures
        texts(final(words)@) == texts(old(words)@) + bin_selector(cli@.bin),
{
    let ghost before = texts(words@);
    match &cli.bin {
        Some(name) => {
            push_word(words, "--bin");
            push_word(words, name.as_str());
            assert(before.push("--bin"@).push(name@) =~= before + bin_selector(cli@.bin));
        },
        None => {
            assert(before =~= before + bin_selector(cli@.bin));
        },
    }
}

/// The run of `cargo binstall` that installs the target under `install_dir`.
pub fn install_with_binstall(
    target: &Target,
    cli: &Cli,
    version: Option<&Version>,
    env: &Vec<(String, String)>,
    install_dir: &str,
) -> (r: Invocation)
    ensures
        r@ == binstall_invocation(
            target.crate_name@,
            cli@,
            version_view(version),
            pairs(env@),
            install_dir@,
        ),
{
    let mut args: Vec<String> = Vec::new();
    assert(texts(args@) =~= Seq::empty());
    push_word(&mut args, "binstall");
    push_flag(&mut args, cli.quiet, "--quiet");
    push_word(&mut args, "--no-confirm");
    push_flag(&mut args, cli.force, "--force");
    push_bin_selector(&mut args, cli);
    let mut spec = target.crate_name.clone();
    if let Some(v) = version {
        spec.append("@");
        spec.append(v.as_str());
        proof {
            reveal_strlit("@");
            assert("@"@ =~= seq!['@']);
        }
    }
    push_word(&mut args, spec.as_str());
    assert(texts(args@) =~= binstall_args(target.crate_name@, cli@, version_view(version)));
    Invocation {
        program: String::from_str("cargo"),
        args,
        env: sanitize_cargo_env(env, install_dir),
        bin_dir: join(install_dir, "bin"),
    }
}

/// The run of `cargo install` that builds the target from source and
/// installs it under `install_dir`, with the build's intermediate output in
/// `scratch_dir`.
pub fn install_with_cargo(
    target: &Target,
    cli: &Cli,
    version: Option<&Version>,
    env: &Vec<(String, String)>,
    install_dir: &str,
    scratch_dir: &str,
) -> (r: Invocation)
    ensures
        r@ == cargo_install_invocation(
            target.crate_name@,
            cli@,
            version_view(version),
            pairs(env@),
            install_dir@,
            scratch_dir@,
        ),
{
    let mut args: Vec<String> = Vec::new();
    assert(texts(args@) =~= Seq::empty());
    push_word(&mut args, "install");
    push_flag(&mut args, cli.quiet, "--quiet");
    push_flag(&mut args, cli.force, "--force");
    push_word(&mut args, "--root");
    push_word(&mut args, install_dir);
    push_word(&mut args, target.crate_name.as_str());
    if let Some(v) = version {
        push_word(&mut args, "--version");
        push_word(&mut args, v.as_str());
    }
    push_bin_selector(&mut args, cli);
    assert(texts(args@) =~= cargo_install_args(
        target.crate_name@,
        cli@,
        version_view(version),
        install_dir@,
    ));
    let mut child_env = sanitize_cargo_env(env, install_dir);
    let ghost sandbox = pairs(child_env@);
    child_env.push((String::from_str("CARGO_TARGET_DIR"), String::from_str(scratch_dir)));
    assert(pairs(child_env@) =~= sandbox.push(("CARGO_TARGET_DIR"@, scratch_dir@)));
    Invocation {
        program: String::from_str("cargo"),
        args,
        env: child_env,
        bin_dir: join(install_dir, "bin"),
    }
}

/// What happened since the last step of an installation.
#[derive(Debug)]
pub enum InstallEvent {
    /// Nothing yet: the installation begins.
    Begin,
    /// The scratch directory that was asked for exists, at `dir`.
    ScratchReady { dir: String },
    /// The external tool has ended. `code` is its exit code, or `None` where
    /// a signal ended it.
    Exited { success: bool, code: Option<i32> },
    /// The files that were to be probed have been: `staged` says of each
    /// staged file, in order, whether it exists, and `installed` whether a
    /// file stands where the executable is to be kept.
    Probed { staged: Vec<bool>, installed: bool },
}

/// The mathematical value of an [`InstallEvent`].
pub enum InstallEventView {
    Begin,
    ScratchReady { dir: Seq<char> },
    Exited { success: bool, code: Option<i32> },
    Probed { staged: Seq<bool>, installed: bool },
}

impl View for InstallEvent {
    type V = InstallEventView;

    open spec fn view(&self) -> InstallEventView {
        match self {
            InstallEvent::Begin => InstallEventView::Begin,
            InstallEvent::ScratchReady { dir } => InstallEventView::ScratchReady { dir: dir@ },
            InstallEvent::Exited { success, code } => InstallEventView::Exited {
                success: *success,
                code: *code,
            },
            InstallEvent::Probed { staged, installed } => InstallEventView::Probed {
                staged: staged@,
                installed: *installed,
            },
        }
    }
}

/// Moving the staged executable to where it is kept.
#[derive(Debug)]
pub struct Relocation {
    /// The file that the external tool left behind.
    pub from: String,
    /// The file under which the executable is kept.
    pub to: String,
    /// Whether a file at `to` has to be removed first.
    pub replace: bool,
}

/// The mathematical value of a [`Relocation`].
pub struct RelocationView {
    pub from: Seq<char>,
    pub to: Seq<char>,
    pub replace: bool,
}

impl View for Relocation {
    type V = RelocationView;

    open spec fn view(&self) -> RelocationView {
        RelocationView { from: self.from@, to: self.to@, replace: self.replace }
    }
}

/// What to do next in an installation.
#[derive(Debug)]
pub enum InstallAction {
    /// Create a fresh scratch directory, to be removed when the external
    /// tool has ended, however it ends; then report
    /// [`InstallEvent::ScratchReady`].
    MakeScratchDir,
    /// Create the invocation's `bin_dir` if it is missing, run the
    /// invocation, and report [`InstallEvent::Exited`].
    Run(Invocation),
    /// Look whether the files exist, and report [`InstallEvent::Probed`].
    Probe { staged: Vec<String>, installed: Option<String> },
    /// Move the staged file; the installation is then complete.
    Relocate(Relocation),
    /// Nothing is left to do: the installation is complete.
    Done,
    /// The installation has failed.
    Fail(InstallError),
}

/// The mathematical value of an [`InstallAction`].
pub enum InstallActionView {
    MakeScratchDir,
    Run(InvocationView),
    Probe { staged: Seq<Seq<char>>, installed: Option<Seq<char>> },
    Relocate(RelocationView),
    Done,
    Fail(InstallError),
}

impl View for InstallAction {
    type V = InstallActionView;

    open spec fn view(&self) -> InstallActionView {
        match self {
            InstallAction::MakeScratchDir => InstallActionView::MakeScratchDir,
            InstallAction::Run(invocation) => InstallActionView::Run(invocation@),
            InstallAction::Probe { staged, installed } => InstallActionView::Probe {
                staged: texts(staged@),
                installed: match installed {
                    Some(path) => Some(path@),
                    None => None,
                },
            },
            InstallAction::Relocate(relocation) => InstallActionView::Relocate(relocation@),
            InstallAction::Done => InstallActionView::Done,
            InstallAction::Fail(e) => InstallActionView::Fail(*e),
        }
    }
}

/// The files that an external tool may leave for the executable `binary`:
/// its names in the `bin` directory of the install root.
pub open spec fn staged_files(binary: Seq<char>, root: Seq<char>, platform: Platform) -> Seq<
    Seq<char>,
> {
    let names = file_names(binary, platform);
    Seq::new(names.len(), |k: int| joined(joined(root, "bin"@), names[k]))
}

/// What the tool's end means: success lets the installation go on, anything
/// else fails it with the exit code, or without one after a signal.
pub open spec fn exit_outcome(backend: Backend, success: bool, code: Option<i32>) -> Result<
    (),
    InstallError,
> {
    if success {
        Ok(())
    } else {
        Err(InstallError::ExternalToolFailed { backend, code })
    }
}

/// How an installation under `root` is completed, given what the probes
/// found.
pub open spec fn finalization(
    binary: Seq<char>,
    version: Option<Seq<char>>,
    root: Seq<char>,
    platform: Platform,
    staged: Seq<bool>,
    installed: bool,
) -> Result<Option<RelocationView>, InstallError> {
    let files = staged_files(binary, root, platform);
    match first_present(staged, files.len() as int) {
        None => Err(InstallError::InstallationIncomplete),
        Some(at) => match version {
            None => Ok(None),
            Some(v) => Ok(
                Some(
                    RelocationView {
                        from: files[at],
                        to: versioned_path(root, binary, v, platform),
                        replace: installed,
                    },
                ),
            ),
        },
    }
}

/// The next step of an installation.
///
/// Without an install root nothing can be done. With one, the installation
/// begins with the run of the fast tool, or with a scratch directory for the
/// build from source, which runs once the directory is there. A tool that
/// fails ends the installation: the other tool is not tried in its place. A
/// tool that succeeds has its result probed and, where a version was asked
/// for, moved to the place of that version.
pub open spec fn install_step(
    target_crate: Seq<char>,
    binary: Seq<char>,
    cli: CliView,
    version: Option<Seq<char>>,
    host: Host,
    binstall_available: bool,
    event: InstallEventView,
) -> InstallActionView {
    let backend = backend_of(cli.build_from_source, binstall_available);
    let env = pairs(host.env@);
    match install_root(host) {
        None => InstallActionView::Fail(InstallError::NoInstallDirectory),
        Some(root) => match event {
            InstallEventView::Begin => match backend {
                Backend::Binstall => InstallActionView::Run(
                    binstall_invocation(target_crate, cli, version, env, root),
                ),
                Backend::CargoInstall => InstallActionView::MakeScratchDir,
            },
            InstallEventView::ScratchReady { dir } => match backend {
                Backend::Binstall => InstallActionView::Run(
                    binstall_invocation(target_crate, cli, version, env, root),
                ),
                Backend::CargoInstall => InstallActionView::Run(
                    cargo_install_invocation(target_crate, cli, version, env, root, dir),
                ),
            },
            InstallEventView::Exited { success, code } => match exit_outcome(
                backend,
                success,
                code,
            ) {
                Ok(_) => InstallActionView::Probe {
                    staged: staged_files(binary, root, host.platform),
                    installed: match version {
                        Some(v) => Some(versioned_path(root, binary, v, host.platform)),
                        None => None,
                    },
                },
                Err(e) => InstallActionView::Fail(e),
            },
            InstallEventView::Probed { staged, installed } => match finalization(
                binary,
                version,
                root,
                host.platform,
                staged,
                installed,
            ) {
                Ok(Some(relocation)) => InstallActionView::Relocate(relocation),
                Ok(None) => InstallActionView::Done,
                Err(e) => InstallActionView::Fail(e),
            },
        },
    }
}

/// A file system as far as an installation is concerned: which paths hold a
/// file, and what the file holds.
pub type Store = Map<Seq<char>, Seq<u8>>;

/// The file system after a relocation was carried out: a file at `to` was
/// removed where there was one, and the staged file was renamed to `to`.
pub open spec fn relocated(store: Store, relocation: RelocationView) -> Store {
    store.remove(relocation.to).remove(relocation.from).insert(
        relocation.to,
        store[relocation.from],
    )
}

/// Completing an installation leaves the staged file, and nothing else, at
/// the place of the version: whatever stood there before is gone, the
/// staging place is empty again, and no other file is touched.
pub proof fn lemma_relocation_overwrites(store: Store, relocation: RelocationView)
    requires
        store.contains_key(relocation.from),
        relocation.from != relocation.to,
    ensures
        relocated(store, relocation).contains_key(relocation.to),
        relocated(store, relocation)[relocation.to] == store[relocation.from],
        !relocated(store, relocation).contains_key(relocation.from),
        forall|path: Seq<char>|
            path != relocation.from && path != relocation.to ==> (relocated(
                store,
                relocation,
            ).contains_key(path) <==> store.contains_key(path)) && relocated(
                store,
                relocation,
            )[path] == store[path],
{
}

/// A text that goes on with itself after `bin/` is made of the characters
/// of `bin/`, over and over.
proof fn lemma_repeats_bin(text: Seq<char>, tail: Seq<char>, i: int)
    requires
        "bin/"@ + text == text + tail,
        0 <= i < text.len(),
    ensures
        text[i] == "bin/"@[i % 4],
    decreases i,
{
    reveal_strlit("bin/");
    let left = "bin/"@ + text;
    assert(left[i] == (text + tail)[i]);
    if i >= 4 {
        lemma_repeats_bin(text, tail, i - 4);
        assert(left[i] == text[i - 4]);
    }
}

/// No text goes on with `-` after going on with itself after `bin/`.
proof fn lemma_no_dash_after_bin(text: Seq<char>, rest: Seq<char>)
    ensures
        "bin/"@ + text != text + seq!['-'] + rest,
{
    reveal_strlit("bin/");
    let left = "bin/"@ + text;
    let right = text + seq!['-'] + rest;
    if left == right {
        let n = text.len() as int;
        assert(right =~= text + (seq!['-'] + rest));
        assert(right[n] == '-');
        if n >= 4 {
            lemma_repeats_bin(text, seq!['-'] + rest, n - 4);
            assert(left[n] == text[n - 4]);
        } else {
            assert(left[n] == "bin/"@[n]);
        }
    }
}

/// What an external tool leaves behind never stands at the place of a
/// version: moving it there is a move between two different files.
pub proof fn lemma_staged_is_not_versioned(
    binary: Seq<char>,
    version: Seq<char>,
    root: Seq<char>,
    platform: Platform,
    k: int,
)
    requires
        0 <= k < staged_files(binary, root, platform).len(),
    ensures
        staged_files(binary, root, platform)[k] != versioned_path(root, binary, version, platform),
{
    reveal_strlit("bin/");
    reveal_strlit("bin");
    reveal_strlit(".exe");
    let staged = staged_files(binary, root, platform)[k];
    let place = versioned_path(root, binary, version, platform);
    let name = file_names(binary, platform)[k];
    let lead = root.len() as int + 1;
    if staged == place {
        let left = "bin/"@ + name;
        let right = binary + seq!['-'] + version + crate::paths::exe_suffix(platform);
        assert(staged.skip(lead) =~= left);
        assert(place.skip(lead) =~= right);
        assert(left == right);
        match platform {
            Platform::Unix => {
                assert(right =~= binary + seq!['-'] + version);
                lemma_no_dash_after_bin(binary, version);
            },
            Platform::Windows => {
                if k == 0 {
                    assert(left.len() == 4 + binary.len());
                    assert(right.len() == binary.len() + 1 + version.len() + 4);
                } else {
                    let cut = left.len() - 4;
                    assert(left.take(cut) =~= "bin/"@ + binary);
                    assert(right.take(cut) =~= binary + seq!['-'] + version);
                    lemma_no_dash_after_bin(binary, version);
                }
            },
        }
    }
}

/// Installing a version twice is installing it once, with the later
/// content. Both installations are completed by a move to the same place;
/// after the second, that place holds what the second installation staged,
/// the staging place is empty, and no file has come or gone elsewhere.
pub proof fn lemma_reinstall_overwrites(
    binary: Seq<char>,
    version: Seq<char>,
    root: Seq<char>,
    platform: Platform,
    store: Store,
    first_probe: Seq<bool>,
    first_content: Seq<u8>,
    second_probe: Seq<bool>,
    second_content: Seq<u8>,
)
    requires
        finalization(
            binary,
            Some(version),
            root,
            platform,
            first_probe,
            store.contains_key(versioned_path(root, binary, version, platform)),
        ) is Ok,
        finalization(binary, Some(version), root, platform, second_probe, true) is Ok,
    ensures
        ({
            let place = versioned_path(root, binary, version, platform);
            let first = finalization(
                binary,
                Some(version),
                root,
                platform,
                first_probe,
                store.contains_key(place),
            )->Ok_0->0;
            let second = finalization(
                binary,
                Some(version),
                root,
                platform,
                second_probe,
                true,
            )->Ok_0->0;
            let after_first = relocated(store.insert(first.from, first_content), first);
            let after_second = relocated(after_first.insert(second.from, second_content), second);
            &&& first.to == place
            &&& second.to == place
            &&& second.replace
            &&& after_first[place] == first_content
            &&& after_second[place] == second_content
            &&& !after_second.contains_key(second.from)
            &&& forall|path: Seq<char>|
                path != second.from ==> (after_second.contains_key(path)
                    <==> after_first.contains_key(path))
        }),
{
    let files = staged_files(binary, root, platform);
    let first_at = first_present(first_probe, files.len() as int)->0;
    let second_at = first_present(second_probe, files.len() as int)->0;
    crate::paths::lemma_first_present(first_probe, files.len() as int);
    crate::paths::lemma_first_present(second_probe, files.len() as int);
    lemma_staged_is_not_versioned(binary, version, root, platform, first_at);
    lemma_staged_is_not_versioned(binary, version, root, platform, second_at);
}

/// Every run that an installation asks for is sandboxed: its environment is
/// the ambient one scrubbed, with `CARGO_INSTALL_ROOT` set to the install
/// root, and for a build from source the scratch directory after it.
pub proof fn lemma_every_run_is_sandboxed(
    target_crate: Seq<char>,
    binary: Seq<char>,
    cli: CliView,
    version: Option<Seq<char>>,
    host: Host,
    binstall_available: bool,
    event: InstallEventView,
)
    requires
        install_step(target_crate, binary, cli, version, host, binstall_available, event) is Run,
    ensures
        ({
            let run = install_step(
                target_crate,
                binary,
                cli,
                version,
                host,
                binstall_available,
                event,
            )->Run_0;
            let sandbox = sandboxed(pairs(host.env@), install_root(host)->0);
            &&& install_root(host) is Some
            &&& run.program == "cargo"@
            &&& run.env == sandbox || (event matches InstallEventView::ScratchReady { dir }
                && run.env == sandbox.push(("CARGO_TARGET_DIR"@, dir)))
        }),
{
}

/// Once the external tool has been run, no step runs a tool again: a tool
/// that failed fails the installation, and the other tool is not tried.
pub proof fn lemma_no_second_run(
    target_crate: Seq<char>,
    binary: Seq<char>,
    cli: CliView,
    version: Option<Seq<char>>,
    host: Host,
    binstall_available: bool,
    event: InstallEventView,
)
    requires
        event is Exited || event is Probed,
    ensures
        !(install_step(target_crate, binary, cli, version, host, binstall_available, event) is Run),
        !(install_step(
            target_crate,
            binary,
            cli,
            version,
            host,
            binstall_available,
            event,
        ) is MakeScratchDir),
        event matches InstallEventView::Exited { success, code } ==> (!success && install_root(
            host,
        ) is Some ==> install_step(
            target_crate,
            binary,
            cli,
            version,
            host,
            binstall_available,
            event,
        ) == InstallActionView::Fail(
            InstallError::ExternalToolFailed {
                backend: backend_of(cli.build_from_source, binstall_available),
                code,
            },
        )),
{
}

/// How a tool ended, in words: its exit code, or `signal` where a signal
/// ended it.
pub open spec fn status_text(code: Option<i32>) -> Seq<char> {
    match code {
        Some(c) => decimal(c as int),
        None => "signal"@,
    }
}

/// The name by which a tool is known.
pub open spec fn tool_name(backend: Backend) -> Seq<char> {
    match backend {
        Backend::Binstall => "cargo-binstall"@,
        Backend::CargoInstall => "cargo install"@,
    }
}

/// Why the build from source was chosen, in words.
pub open spec fn fallback_reason(
    build_from_source: bool,
    crate_name: Seq<char>,
    version: Option<Seq<char>>,
) -> Seq<char> {
    if build_from_source {
        "Building "@ + install_spec(crate_name, version) + " from source with cargo install"@
    } else {
        "cargo-binstall not found; falling back to cargo install for "@ + install_spec(
            crate_name,
            version,
        )
    }
}

/// What an installation error says.
pub open spec fn install_error_text(e: InstallError) -> Seq<char> {
    match e {
        InstallError::NoInstallDirectory => "unable to determine install directory"@,
        InstallError::ExternalToolFailed { backend, code } => tool_name(backend)
            + " exited with status code "@ + status_text(code),
        InstallError::InstallationIncomplete =>
            "the installer reported success but left no executable behind"@,
    }
}

/// How a tool ended, in words: its exit code, or `signal` where a signal
/// ended it.
pub fn exit_status_text(code: Option<i32>) -> (r: String)
    ensures
        r@ == status_text(code),
{
    match code {
        Some(c) => decimal_text(c),
        None => String::from_str("signal"),
    }
}

/// Says why the build from source is used: because it was asked for, or
/// because the fast tool is not to be found.
pub fn log_fallback_reason(cli: &Cli, target: &Target, version: Option<&Version>) -> (r: String)
    ensures
        r@ == fallback_reason(cli.build_from_source, target.crate_name@, version_view(version)),
{
    let mut spec = target.crate_name.clone();
    if let Some(v) = version {
        spec.append("@");
        spec.append(v.as_str());
        proof {
            reveal_strlit("@");
            assert("@"@ =~= seq!['@']);
        }
    }
    if cli.build_from_source {
        let mut text = String::from_str("Building ");
        text.append(spec.as_str());
        text.append(" from source with cargo install");
        text
    } else {
        let mut text = String::from_str(
            "cargo-binstall not found; falling back to cargo install for ",
        );
        text.append(spec.as_str());
        text
    }
}

impl InstallError {
    /// What the error says.
    pub fn message(&self) -> (r: String)
        ensures
            r@ == install_error_text(*self),
    {
        match self {
            InstallError::NoInstallDirectory => String::from_str(
                "unable to determine install directory",
            ),
            InstallError::ExternalToolFailed { backend, code } => {
                let mut text = match backend {
                    Backend::Binstall => String::from_str("cargo-binstall"),
                    Backend::CargoInstall => String::from_str("cargo install"),
                };
                text.append(" exited with status code ");
                text.append(exit_status_text(*code).as_str());
                text
            },
            InstallError::InstallationIncomplete => String::from_str(
                "the installer reported success but left no executable behind",
            ),
        }
    }
}

/// What the end of the external tool means for the installation.
pub fn check_exit(backend: Backend, success: bool, code: Option<i32>) -> (r: Result<
    (),
    InstallError,
>)
    ensures
        r == exit_outcome(backend, success, code),
{
    if success {
        Ok(())
    } else {
        Err(InstallError::ExternalToolFailed { backend, code })
    }
}

/// The directory into which the external tools put what they install.
pub fn ensure_bin_dir(install_dir: &str) -> (r: String)
    ensures
        r@ == joined(install_dir@, "bin"@),
{
    join(install_dir, "bin")
}

/// The files that an external tool may leave for the executable `binary`.
pub fn staged_candidates(binary: &str, install_dir: &str, platform: Platform) -> (r: Vec<String>)
    ensures
        texts(r@) == staged_files(binary@, install_dir@, platform),
{
    let bin_dir = ensure_bin_dir(install_dir);
    let names = candidate_file_names(binary, platform);
    let ghost spec_names = file_names(binary@, platform);
    let mut files: Vec<String> = Vec::new();
    let mut k: usize = 0;
    while k < names.len()
        invariant
            k <= names.len(),
            bin_dir@ == joined(install_dir@, "bin"@),
            names@.len() == spec_names.len(),
            forall|i: int| 0 <= i < names@.len() ==> (#[trigger] names@[i])@ == spec_names[i],
            files@.len() == k,
            forall|i: int|
                0 <= i < k ==> (#[trigger] files@[i])@ == joined(bin_dir@, spec_names[i]),
        decreases names.len() - k,
    {
        files.push(join(bin_dir.as_str(), names[k].as_str()));
        k += 1;
    }
    assert(texts(files@) =~= staged_files(binary@, install_dir@, platform));
    files
}

/// Completes an installation under `install_dir`.
///
/// `staged` says of each file of [`staged_candidates`], in order, whether it
/// exists, and `installed` whether a file stands at the place of the
/// version. If none of the staged files exists the tool has not kept its
/// word. Otherwise an installation without a version is complete as it is,
/// and one with a version is completed by moving the first staged file that
/// exists to the place of the version, over whatever stands there. The two
/// are never the same file.
pub fn finalize_installation(
    install_dir: &str,
    binary: &str,
    version: Option<&Version>,
    platform: Platform,
    staged: &Vec<bool>,
    installed: bool,
) -> (r: Result<Option<Relocation>, InstallError>)
    ensures
        match (
            r,
            finalization(
                binary@,
                version_view(version),
                install_dir@,
                platform,
                staged@,
                installed,
            ),
        ) {
            (Ok(Some(relocation)), Ok(Some(expected))) => relocation@ == expected,
            (Ok(None), Ok(None)) => true,
            (Err(e), Err(expected)) => e == expected,
            _ => false,
        },
        r matches Ok(Some(relocation)) ==> relocation.from@ != relocation.to@,
{
    let files = staged_candidates(binary, install_dir, platform);
    let ghost spec_files = staged_files(binary@, install_dir@, platform);
    let mut i: usize = 0;
    assert(staged@.skip(0) =~= staged@);
    while i < files.len() && i < staged.len()
        invariant
            i <= files.len(),
            i <= staged.len(),
            spec_files == staged_files(binary@, install_dir@, platform),
            texts(files@) == spec_files,
            first_present(staged@, spec_files.len() as int) == (match first_present(
                staged@.skip(i as int),
                spec_files.len() - i,
            ) {
                Some(at) => Some(at + i),
                None => None,
            }),
        decreases files.len() - i,
    {
        assert(staged@.skip(i as int)[0] == staged@[i as int]);
        assert(spec_files.len() == files@.len());
        if staged[i] {
            assert(spec_files[i as int] == files@[i as int]@);
            return match version {
                None => Ok(None),
                Some(v) => {
                    let file = versioned_file_name(binary, v, platform);
                    proof {
                        lemma_staged_is_not_versioned(binary@, v@, install_dir@, platform, i as int);
                    }
                    Ok(
                        Some(
                            Relocation {
                                from: files[i].clone(),
                                to: join(install_dir, file.as_str()),
                                replace: installed,
                            },
                        ),
                    )
                },
            };
        }
        assert(staged@.skip(i as int).drop_first() =~= staged@.skip(i + 1));
        i += 1;
    }
    Err(InstallError::InstallationIncomplete)
}

/// Says what to do next to have the target installed.
///
/// The caller starts with [`InstallEvent::Begin`], carries out the action
/// that comes back and reports what came of it, until the action is
/// [`InstallAction::Relocate`] or [`InstallAction::Done`], after which the
/// target is installed, or [`InstallAction::Fail`]. `binstall_available`
/// says whether `cargo-binstall` is to be found on `PATH`.
pub fn ensure_installed(
    target: &Target,
    cli: &Cli,
    version: Option<&Version>,
    host: &Host,
    binstall_available: bool,
    event: InstallEvent,
) -> (r: InstallAction)
    ensures
        r@ == install_step(
            target.crate_name@,
            target.binary@,
            cli@,
            version_view(version),
            *host,
            binstall_available,
            event@,
        ),
{
    let install_dir = match get_install_dir(host) {
        Ok(dir) => dir.path,
        Err(_) => {
            return InstallAction::Fail(InstallError::NoInstallDirectory);
        },
    };
    let backend = select_backend(cli, binstall_available);
    match event {
        InstallEvent::Begin => match backend {
            Backend::Binstall => InstallAction::Run(
                install_with_binstall(target, cli, version, &host.env, install_dir.as_str()),
            ),
            Backend::CargoInstall => InstallAction::MakeScratchDir,
        },
        InstallEvent::ScratchReady { dir } => match backend {
            Backend::Binstall => InstallAction::Run(
                install_with_binstall(target, cli, version, &host.env, install_dir.as_str()),
            ),
            Backend::CargoInstall => InstallAction::Run(
                install_with_cargo(
                    target,
                    cli,
                    version,
                    &host.env,
                    install_dir.as_str(),
                    dir.as_str(),
                ),
            ),
        },
        InstallEvent::Exited { success, code } => match check_exit(backend, success, code) {
            Ok(_) => {
                let staged = staged_candidates(
                    target.binary.as_str(),
                    install_dir.as_str(),
                    host.platform,
                );
                let installed = match version {
                    Some(v) => {
                        match versioned_binary_path(target.binary.as_str(), v, host) {
                            Ok(path) => Some(path),
                            Err(_) => None,
                        }
                    },
                    None => None,
                };
                InstallAction::Probe { staged, installed }
            },
            Err(e) => InstallAction::Fail(e),
        },
        InstallEvent::Probed { staged, installed } => match finalize_installation(
            install_dir.as_str(),
            target.binary.as_str(),
            version,
            host.platform,
            &staged,
            installed,
        ) {
            Ok(Some(relocation)) => InstallAction::Relocate(relocation),
            Ok(None) => InstallAction::Done,
            Err(e) => InstallAction::Fail(e),
        },
    }
}

} // verus!
