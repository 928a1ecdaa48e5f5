use cargox::cli::Cli;
use cargox::installer::{
    check_exit, ensure_bin_dir, ensure_installed, exit_status_text, finalize_installation,
    install_with_binstall, install_with_cargo, is_scrubbed_name, log_fallback_reason,
    sanitize_cargo_env, select_backend, staged_candidates, Backend, InstallAction, InstallError,
    InstallEvent,
};
use cargox::paths::{Host, Platform};
use cargox::target::{Target, VersionSpec};
use cargox::version::Version;

fn env_of(list: &[(&str, &str)]) -> Vec<(String, String)> {
    list.iter().map(|(k, v)| (k.to_string(), v.to_string())).collect()
}

fn strings(list: &[&str]) -> Vec<String> {
    list.iter().map(|w| w.to_string()).collect()
}

fn cli() -> Cli {
    Cli {
        crate_spec: "ripgrep@14".to_string(),
        bin: None,
        args: Vec::new(),
        force: false,
        quiet: false,
        build_from_source: false,
    }
}

fn target() -> Target {
    Target {
        crate_name: "ripgrep".to_string(),
        version: VersionSpec::Unspecified,
        binary: "rg".to_string(),
    }
}

fn host() -> Host {
    Host {
        platform: Platform::Unix,
        env: env_of(&[
            ("PATH", "/usr/bin"),
            ("CARGO_HOME", "/ambient/cargo"),
            ("CARGOX_INSTALL_DIR", "/opt/cx"),
        ]),
        data_dir: None,
    }
}

fn version() -> Version {
    Version::parse("14.1.0").unwrap()
}

#[test]
fn sanitize_cargo_env_removes_cargo_variables() {
    let temp = tempfile::tempdir().unwrap();
    let install_dir = temp.path().to_string_lossy().into_owned();

    let env = env_of(&[
        ("CARGO_INSTALL_ROOT", "/some/path"),
        ("CARGO_HOME", "/some/cargo"),
        ("BINSTALL_INSTALL_PATH", "/some/binstall"),
        ("RUSTUP_HOME", "/some/rustup"),
        ("CARGO_TARGET_DIR", "/some/target"),
        ("SOME_OTHER_VAR", "should_remain"),
    ]);

    let sanitized = sanitize_cargo_env(&env, &install_dir);

    assert_eq!(
        sanitized,
        vec![
            ("SOME_OTHER_VAR".to_string(), "should_remain".to_string()),
            ("CARGO_INSTALL_ROOT".to_string(), install_dir),
        ]
    );
}

#[test]
fn sandbox_holds_for_every_scrubbed_variable() {
    let names = [
        "CARGO_INSTALL_ROOT",
        "CARGO_HOME",
        "CARGO_BUILD_TARGET_DIR",
        "CARGO_TARGET_DIR",
        "BINSTALL_INSTALL_PATH",
        "RUSTUP_HOME",
        "RUSTUP_TOOLCHAIN",
    ];
    let mut env: Vec<(String, String)> =
        names.iter().map(|n| (n.to_string(), "/ambient".to_string())).collect();
    env.insert(3, ("UNRELATED".to_string(), "kept as it is".to_string()));

    let sanitized = sanitize_cargo_env(&env, "/private/root");

    assert!(sanitized.contains(&("UNRELATED".to_string(), "kept as it is".to_string())));
    assert!(sanitized.iter().all(|(_, value)| value != "/ambient"));
    for name in names.iter().filter(|n| **n != "CARGO_INSTALL_ROOT") {
        assert!(sanitized.iter().all(|(k, _)| k != name), "{name} was kept");
    }
    let roots: Vec<&(String, String)> =
        sanitized.iter().filter(|(k, _)| k == "CARGO_INSTALL_ROOT").collect();
    assert_eq!(roots.len(), 1);
    assert_eq!(roots[0].1, "/private/root");
    assert_eq!(sanitized.len(), 2);
}

#[test]
fn sanitize_keeps_order_and_duplicates_of_other_variables() {
    let env = env_of(&[("B", "2"), ("CARGO_HOME", "x"), ("A", "1"), ("B", "3"), ("cargo_home", "y")]);
    let sanitized = sanitize_cargo_env(&env, "/r");
    assert_eq!(
        sanitized,
        env_of(&[("B", "2"), ("A", "1"), ("B", "3"), ("cargo_home", "y"), ("CARGO_INSTALL_ROOT", "/r")])
    );
    assert_eq!(sanitize_cargo_env(&Vec::new(), "/r"), env_of(&[("CARGO_INSTALL_ROOT", "/r")]));
}

#[test]
fn scrubbed_names_are_exactly_seven() {
    for name in [
        "CARGO_INSTALL_ROOT",
        "CARGO_HOME",
        "CARGO_BUILD_TARGET_DIR",
        "CARGO_TARGET_DIR",
        "BINSTALL_INSTALL_PATH",
        "RUSTUP_HOME",
        "RUSTUP_TOOLCHAIN",
    ] {
        assert!(is_scrubbed_name(&name.to_string()), "{name}");
    }
    for name in ["PATH", "HOME", "CARGO", "CARGO_HOME ", "cargo_home", "CARGOX_INSTALL_DIR", "RUSTFLAGS", ""] {
        assert!(!is_scrubbed_name(&name.to_string()), "{name}");
    }
}

#[test]
fn backend_is_fast_unless_source_is_asked_for_or_the_tool_is_missing() {
    let mut options = cli();
    assert_eq!(select_backend(&options, true), Backend::Binstall);
    assert_eq!(select_backend(&options, false), Backend::CargoInstall);
    options.build_from_source = true;
    assert_eq!(select_backend(&options, true), Backend::CargoInstall);
    assert_eq!(select_backend(&options, false), Backend::CargoInstall);
}

#[test]
fn binstall_invocation_has_the_documented_shape() {
    let v = version();
    let run = install_with_binstall(&target(), &cli(), Some(&v), &host().env, "/opt/cx");
    assert_eq!(run.program, "cargo");
    assert_eq!(run.args, strings(&["binstall", "--no-confirm", "ripgrep@14.1.0"]));
    assert_eq!(run.bin_dir, "/opt/cx/bin");
    assert_eq!(
        run.env,
        env_of(&[
            ("PATH", "/usr/bin"),
            ("CARGOX_INSTALL_DIR", "/opt/cx"),
            ("CARGO_INSTALL_ROOT", "/opt/cx"),
        ])
    );

    let mut options = cli();
    options.quiet = true;
    options.force = true;
    options.bin = Some("rg".to_string());
    let run = install_with_binstall(&target(), &options, Some(&v), &host().env, "/opt/cx");
    assert_eq!(
        run.args,
        strings(&["binstall", "--quiet", "--no-confirm", "--force", "--bin", "rg", "ripgrep@14.1.0"])
    );

    let run = install_with_binstall(&target(), &cli(), None, &host().env, "/opt/cx");
    assert_eq!(run.args, strings(&["binstall", "--no-confirm", "ripgrep"]));
}

#[test]
fn cargo_install_invocation_has_the_documented_shape() {
    let v = version();
    let run = install_with_cargo(&target(), &cli(), Some(&v), &host().env, "/opt/cx", "/tmp/scratch");
    assert_eq!(run.program, "cargo");
    assert_eq!(
        run.args,
        strings(&["install", "--root", "/opt/cx", "ripgrep", "--version", "14.1.0"])
    );
    assert_eq!(run.bin_dir, "/opt/cx/bin");
    assert_eq!(
        run.env,
        env_of(&[
            ("PATH", "/usr/bin"),
            ("CARGOX_INSTALL_DIR", "/opt/cx"),
            ("CARGO_INSTALL_ROOT", "/opt/cx"),
            ("CARGO_TARGET_DIR", "/tmp/scratch"),
        ])
    );

    let mut options = cli();
    options.quiet = true;
    options.force = true;
    options.bin = Some("rg".to_string());
    let run = install_with_cargo(&target(), &options, Some(&v), &host().env, "/opt/cx", "/s");
    assert_eq!(
        run.args,
        strings(&[
            "install", "--quiet", "--force", "--root", "/opt/cx", "ripgrep", "--version", "14.1.0",
            "--bin", "rg",
        ])
    );

    let run = install_with_cargo(&target(), &cli(), None, &host().env, "/opt/cx", "/s");
    assert_eq!(run.args, strings(&["install", "--root", "/opt/cx", "ripgrep"]));
}

#[test]
fn ambient_target_dir_gives_way_to_the_scratch_directory() {
    let env = env_of(&[("CARGO_TARGET_DIR", "/ambient/target"), ("X", "1")]);
    let run = install_with_cargo(&target(), &cli(), None, &env, "/opt/cx", "/tmp/scratch");
    let dirs: Vec<&(String, String)> =
        run.env.iter().filter(|(k, _)| k == "CARGO_TARGET_DIR").collect();
    assert_eq!(dirs.len(), 1);
    assert_eq!(dirs[0].1, "/tmp/scratch");
}

#[test]
fn exit_status_decides_between_going_on_and_failing() {
    assert_eq!(check_exit(Backend::Binstall, true, Some(0)), Ok(()));
    assert_eq!(
        check_exit(Backend::Binstall, false, Some(101)),
        Err(InstallError::ExternalToolFailed { backend: Backend::Binstall, code: Some(101) })
    );
    assert_eq!(
        check_exit(Backend::CargoInstall, false, None),
        Err(InstallError::ExternalToolFailed { backend: Backend::CargoInstall, code: None })
    );
}

#[test]
fn exit_status_text_is_decimal_or_signal() {
    assert_eq!(exit_status_text(Some(0)), "0");
    assert_eq!(exit_status_text(Some(7)), "7");
    assert_eq!(exit_status_text(Some(10)), "10");
    assert_eq!(exit_status_text(Some(101)), "101");
    assert_eq!(exit_status_text(Some(-1)), "-1");
    assert_eq!(exit_status_text(Some(i32::MAX)), "2147483647");
    assert_eq!(exit_status_text(Some(i32::MIN)), "-2147483648");
    assert_eq!(exit_status_text(Some(-1073741510)), "-1073741510");
    assert_eq!(exit_status_text(None), "signal");
}

#[test]
fn install_errors_have_messages() {
    assert_eq!(
        InstallError::ExternalToolFailed { backend: Backend::Binstall, code: Some(101) }.message(),
        "cargo-binstall exited with status code 101"
    );
    assert_eq!(
        InstallError::ExternalToolFailed { backend: Backend::CargoInstall, code: None }.message(),
        "cargo install exited with status code signal"
    );
    assert_eq!(
        InstallError::InstallationIncomplete.message(),
        "the installer reported success but left no executable behind"
    );
    assert_eq!(InstallError::NoInstallDirectory.message(), "unable to determine install directory");
}

#[test]
fn fallback_reason_says_why() {
    let v = version();
    let mut options = cli();
    assert_eq!(
        log_fallback_reason(&options, &target(), Some(&v)),
        "cargo-binstall not found; falling back to cargo install for ripgrep@14.1.0"
    );
    options.build_from_source = true;
    assert_eq!(
        log_fallback_reason(&options, &target(), Some(&v)),
        "Building ripgrep@14.1.0 from source with cargo install"
    );
    assert_eq!(
        log_fallback_reason(&options, &target(), None),
        "Building ripgrep from source with cargo install"
    );
}

#[test]
fn staged_files_are_in_the_bin_directory() {
    assert_eq!(ensure_bin_dir("/opt/cx"), "/opt/cx/bin");
    assert_eq!(staged_candidates("rg", "/opt/cx", Platform::Unix), strings(&["/opt/cx/bin/rg"]));
    assert_eq!(
        staged_candidates("rg", "/opt/cx", Platform::Windows),
        strings(&["/opt/cx/bin/rg", "/opt/cx/bin/rg.exe"])
    );
}

#[test]
fn finalization_moves_the_staged_file_to_the_versioned_path() {
    let v = version();
    let plan = finalize_installation("/opt/cx", "rg", Some(&v), Platform::Unix, &vec![true], false)
        .unwrap()
        .unwrap();
    assert_eq!(plan.from, "/opt/cx/bin/rg");
    assert_eq!(plan.to, "/opt/cx/rg-14.1.0");
    assert!(!plan.replace);
}

#[test]
fn reinstalling_a_version_overwrites_it() {
    let v = version();
    let first = finalize_installation("/opt/cx", "rg", Some(&v), Platform::Unix, &vec![true], false)
        .unwrap()
        .unwrap();
    let second = finalize_installation("/opt/cx", "rg", Some(&v), Platform::Unix, &vec![true], true)
        .unwrap()
        .unwrap();
    assert_eq!(first.to, second.to);
    assert_eq!(first.from, second.from);
    assert!(!first.replace);
    assert!(second.replace);

    // Carried out on a model of the directory, the second installation
    // leaves one file at the place of the version, with the later content.
    let mut files: std::collections::BTreeMap<String, &str> = std::collections::BTreeMap::new();
    for content in ["first", "second"] {
        let staged = staged_candidates("rg", "/opt/cx", Platform::Unix);
        files.insert(staged[0].clone(), content);
        let probes: Vec<bool> = staged.iter().map(|f| files.contains_key(f)).collect();
        let installed = files.contains_key("/opt/cx/rg-14.1.0");
        let plan = finalize_installation("/opt/cx", "rg", Some(&v), Platform::Unix, &probes, installed)
            .unwrap()
            .unwrap();
        assert_eq!(plan.replace, installed);
        if plan.replace {
            assert!(files.remove(&plan.to).is_some());
        }
        let moved = files.remove(&plan.from).unwrap();
        assert!(files.insert(plan.to.clone(), moved).is_none());
        assert_eq!(files.get(&plan.to), Some(&content));
        assert!(!files.contains_key(&plan.from));
    }
    let kept: Vec<&String> = files.keys().collect();
    assert_eq!(kept, vec!["/opt/cx/rg-14.1.0"]);
}

#[test]
fn finalization_without_a_staged_file_is_incomplete() {
    let v = version();
    for staged in [vec![false], Vec::new()] {
        assert_eq!(
            finalize_installation("/opt/cx", "rg", Some(&v), Platform::Unix, &staged, true).unwrap_err(),
            InstallError::InstallationIncomplete
        );
        assert_eq!(
            finalize_installation("/opt/cx", "rg", None, Platform::Unix, &staged, false).unwrap_err(),
            InstallError::InstallationIncomplete
        );
    }
}

#[test]
fn finalization_without_a_version_moves_nothing() {
    let plan = finalize_installation("/opt/cx", "rg", None, Platform::Unix, &vec![true], false).unwrap();
    assert!(plan.is_none());
}

#[test]
fn finalization_on_windows_takes_the_first_staged_file() {
    let v = version();
    let plan = finalize_installation("C:/cx", "rg", Some(&v), Platform::Windows, &vec![false, true], true)
        .unwrap()
        .unwrap();
    assert_eq!(plan.from, "C:/cx/bin/rg.exe");
    assert_eq!(plan.to, "C:/cx/rg-14.1.0.exe");
    assert!(plan.replace);
    let plan = finalize_installation("C:/cx", "rg", Some(&v), Platform::Windows, &vec![true, true], false)
        .unwrap()
        .unwrap();
    assert_eq!(plan.from, "C:/cx/bin/rg");
}

#[test]
fn installation_with_the_fast_tool_step_by_step() {
    let v = version();
    let (t, c, h) = (target(), cli(), host());

    let run = match ensure_installed(&t, &c, Some(&v), &h, true, InstallEvent::Begin) {
        InstallAction::Run(run) => run,
        other => panic!("unexpected action: {other:?}"),
    };
    assert_eq!(run.args[0], "binstall");
    assert!(run.env.iter().all(|(k, _)| k != "CARGO_HOME"));
    assert!(run.env.contains(&("CARGO_INSTALL_ROOT".to_string(), "/opt/cx".to_string())));

    let exited = InstallEvent::Exited { success: true, code: Some(0) };
    match ensure_installed(&t, &c, Some(&v), &h, true, exited) {
        InstallAction::Probe { staged, installed } => {
            assert_eq!(staged, strings(&["/opt/cx/bin/rg"]));
            assert_eq!(installed, Some("/opt/cx/rg-14.1.0".to_string()));
        }
        other => panic!("unexpected action: {other:?}"),
    }

    let probed = InstallEvent::Probed { staged: vec![true], installed: true };
    match ensure_installed(&t, &c, Some(&v), &h, true, probed) {
        InstallAction::Relocate(plan) => {
            assert_eq!(plan.from, "/opt/cx/bin/rg");
            assert_eq!(plan.to, "/opt/cx/rg-14.1.0");
            assert!(plan.replace);
        }
        other => panic!("unexpected action: {other:?}"),
    }
}

#[test]
fn installation_from_source_asks_for_a_scratch_directory_first() {
    let v = version();
    let (t, c, h) = (target(), cli(), host());

    assert!(matches!(
        ensure_installed(&t, &c, Some(&v), &h, false, InstallEvent::Begin),
        InstallAction::MakeScratchDir
    ));
    let mut from_source = cli();
    from_source.build_from_source = true;
    assert!(matches!(
        ensure_installed(&t, &from_source, Some(&v), &h, true, InstallEvent::Begin),
        InstallAction::MakeScratchDir
    ));

    let ready = InstallEvent::ScratchReady { dir: "/tmp/scratch".to_string() };
    match ensure_installed(&t, &c, Some(&v), &h, false, ready) {
        InstallAction::Run(run) => {
            assert_eq!(run.args[0], "install");
            assert_eq!(run.env.last().unwrap(), &("CARGO_TARGET_DIR".to_string(), "/tmp/scratch".to_string()));
        }
        other => panic!("unexpected action: {other:?}"),
    }
}

#[test]
fn failed_tool_fails_the_installation() {
    let v = version();
    let (t, c, h) = (target(), cli(), host());
    let exited = InstallEvent::Exited { success: false, code: Some(101) };
    match ensure_installed(&t, &c, Some(&v), &h, true, exited) {
        InstallAction::Fail(e) => assert_eq!(
            e,
            InstallError::ExternalToolFailed { backend: Backend::Binstall, code: Some(101) }
        ),
        other => panic!("unexpected action: {other:?}"),
    }
    let killed = InstallEvent::Exited { success: false, code: None };
    match ensure_installed(&t, &c, Some(&v), &h, false, killed) {
        InstallAction::Fail(e) => assert_eq!(
            e,
            InstallError::ExternalToolFailed { backend: Backend::CargoInstall, code: None }
        ),
        other => panic!("unexpected action: {other:?}"),
    }
}

#[test]
fn missing_artifact_after_success_is_incomplete() {
    let v = version();
    let (t, c, h) = (target(), cli(), host());
    let probed = InstallEvent::Probed { staged: vec![false], installed: false };
    match ensure_installed(&t, &c, Some(&v), &h, true, probed) {
        InstallAction::Fail(e) => assert_eq!(e, InstallError::InstallationIncomplete),
        other => panic!("unexpected action: {other:?}"),
    }
}

#[test]
fn installation_without_a_version_ends_after_the_probe() {
    let (t, c, h) = (target(), cli(), host());
    let exited = InstallEvent::Exited { success: true, code: Some(0) };
    match ensure_installed(&t, &c, None, &h, true, exited) {
        InstallAction::Probe { staged, installed } => {
            assert_eq!(staged, strings(&["/opt/cx/bin/rg"]));
            assert_eq!(installed, None);
        }
        other => panic!("unexpected action: {other:?}"),
    }
    let probed = InstallEvent::Probed { staged: vec![true], installed: false };
    assert!(matches!(ensure_installed(&t, &c, None, &h, true, probed), InstallAction::Done));
}

#[test]
fn installation_without_an_install_root_fails_at_once() {
    let v = version();
    let (t, c) = (target(), cli());
    let nowhere = Host { platform: Platform::Unix, env: Vec::new(), data_dir: None };
    for event in [
        InstallEvent::Begin,
        InstallEvent::ScratchReady { dir: "/s".to_string() },
        InstallEvent::Exited { success: true, code: Some(0) },
        InstallEvent::Probed { staged: vec![true], installed: false },
    ] {
        match ensure_installed(&t, &c, Some(&v), &nowhere, true, event) {
            InstallAction::Fail(e) => assert_eq!(e, InstallError::NoInstallDirectory),
            other => panic!("unexpected action: {other:?}"),
        }
    }
}
