use cargox::cli::{parse_arguments, Cli};
use cargox::paths::{Host, PathError, Platform};
use cargox::registry::{fetch_highest_matching_version, CrateVersion, RegistryError};
use cargox::runner::{
    exit_with_status, find_existing_binary, locate_installed_binary, parse_target_from_cli,
    run_application, should_use_existing_binary, Action, Progress, RunError,
};
use cargox::target::{SpecError, Target, VersionSpec};
use cargox::version::Version;

fn strings(list: &[&str]) -> Vec<String> {
    list.iter().map(|w| w.to_string()).collect()
}

fn cli_for(words: &[&str]) -> Cli {
    parse_arguments(&strings(words)).unwrap()
}

fn host() -> Host {
    Host {
        platform: Platform::Unix,
        env: vec![("CARGOX_INSTALL_DIR".to_string(), "/opt/cx".to_string())],
        data_dir: None,
    }
}

fn v(text: &str) -> Version {
    Version::parse(text).unwrap()
}

#[test]
fn target_takes_the_binary_from_the_crate_unless_named() {
    let target = parse_target_from_cli(&cli_for(&["ripgrep"])).unwrap();
    assert_eq!(target.crate_name, "ripgrep");
    assert_eq!(target.binary, "ripgrep");
    assert!(matches!(target.version, VersionSpec::Unspecified));

    let target = parse_target_from_cli(&cli_for(&["--bin", "rg", " ripgrep @ latest"])).unwrap();
    assert_eq!(target.crate_name, "ripgrep");
    assert_eq!(target.binary, "rg");
    assert!(matches!(target.version, VersionSpec::Latest));

    let target = parse_target_from_cli(&cli_for(&["ripgrep@14"])).unwrap();
    match target.version {
        VersionSpec::Requirement(req) => assert_eq!(req.as_str(), "^14"),
        other => panic!("unexpected version spec: {other:?}"),
    }
}

#[test]
fn target_of_a_bad_spec_is_the_parsers_error() {
    assert_eq!(parse_target_from_cli(&cli_for(&["a@b@c"])).unwrap_err(), SpecError::TooManySeparators);
    assert_eq!(parse_target_from_cli(&cli_for(&["", "x"])).unwrap_err(), SpecError::Empty);
}

#[test]
fn existing_binary_is_used_only_without_version_and_force() {
    let found = Some("/usr/bin/rg".to_string());
    let plain = cli_for(&["ripgrep"]);
    let target = parse_target_from_cli(&plain).unwrap();
    assert!(should_use_existing_binary(&plain, &target, &found));
    assert!(!should_use_existing_binary(&plain, &target, &None));

    let forced = cli_for(&["--force", "ripgrep"]);
    assert!(!should_use_existing_binary(&forced, &target, &found));

    for spec in ["ripgrep@latest", "ripgrep@14"] {
        let pinned = cli_for(&[spec]);
        let target = parse_target_from_cli(&pinned).unwrap();
        assert!(!should_use_existing_binary(&pinned, &target, &found));
    }
}

#[test]
fn find_existing_binary_prefers_path() {
    let h = host();
    assert_eq!(
        find_existing_binary("rg", &h, Some("/usr/bin/rg".to_string()), &vec![true, true]),
        Some("/usr/bin/rg".to_string())
    );
    assert_eq!(
        find_existing_binary("rg", &h, None, &vec![false, true]),
        Some("/opt/cx/rg".to_string())
    );
    assert_eq!(find_existing_binary("rg", &h, None, &vec![false, false]), None);
}

#[test]
fn located_binary_is_the_versioned_one_where_a_version_is_known() {
    let h = host();
    let target = parse_target_from_cli(&cli_for(&["--bin", "rg", "ripgrep"])).unwrap();
    let version = v("14.1.0");
    assert_eq!(
        locate_installed_binary(&target, Some(&version), &h, None, &Vec::new(), true).unwrap(),
        "/opt/cx/rg-14.1.0"
    );
    assert_eq!(
        locate_installed_binary(&target, Some(&version), &h, Some("/usr/bin/rg".to_string()), &vec![true], false)
            .unwrap_err(),
        PathError::BinaryNotFound
    );
    assert_eq!(
        locate_installed_binary(&target, None, &h, None, &vec![true, false], false).unwrap(),
        "/opt/cx/bin/rg"
    );
    assert_eq!(
        locate_installed_binary(&target, None, &h, None, &vec![false, false], true).unwrap_err(),
        PathError::BinaryNotFound
    );
}

#[test]
fn exit_code_is_the_childs_or_one() {
    assert_eq!(exit_with_status(Some(0)), 0);
    assert_eq!(exit_with_status(Some(3)), 3);
    assert_eq!(exit_with_status(Some(-7)), -7);
    assert_eq!(exit_with_status(None), 1);
}

#[test]
fn cached_version_runs_without_installing() {
    let h = host();
    let cli = cli_for(&["tool@1.2.3", "--flag", "value"]);
    let target = parse_target_from_cli(&cli).unwrap();

    let requirement = match run_application(&cli, &target, &h, Progress::Started) {
        Action::FetchVersions { request, requirement } => {
            assert_eq!(request.url, "https://crates.io/api/v1/crates/tool");
            assert_eq!(request.user_agent, "cargox/0.1.0");
            assert_eq!(request.timeout_secs, 10);
            requirement
        }
        other => panic!("unexpected action: {other:?}"),
    };
    assert_eq!(requirement.as_ref().unwrap().as_str(), "^1.2.3");

    let listing = vec![
        CrateVersion { num: "1.2.3".to_string(), yanked: false },
        CrateVersion { num: "2.0.0".to_string(), yanked: false },
    ];
    let outcome = fetch_highest_matching_version(requirement.as_ref(), Ok(listing));
    let (version, path) = match run_application(&cli, &target, &h, Progress::Resolved { outcome }) {
        Action::ProbeVersion { version, path } => (version, path),
        other => panic!("unexpected action: {other:?}"),
    };
    assert_eq!(version.as_str(), "1.2.3");
    assert_eq!(path, "/opt/cx/tool-1.2.3");

    match run_application(&cli, &target, &h, Progress::Probed { version, present: true }) {
        Action::Execute { path, args } => {
            assert_eq!(path, "/opt/cx/tool-1.2.3");
            assert_eq!(args, strings(&["--flag", "value"]));
        }
        other => panic!("unexpected action: {other:?}"),
    }
}

#[test]
fn missing_version_is_installed_then_run() {
    let h = host();
    let cli = cli_for(&["tool@1.2.3"]);
    let target = parse_target_from_cli(&cli).unwrap();
    match run_application(&cli, &target, &h, Progress::Probed { version: v("1.2.3"), present: false }) {
        Action::Install { version, path } => {
            assert_eq!(version.as_str(), "1.2.3");
            assert_eq!(path, "/opt/cx/tool-1.2.3");
        }
        other => panic!("unexpected action: {other:?}"),
    }
    match run_application(&cli, &target, &h, Progress::Installed { version: v("1.2.3"), present: true }) {
        Action::Execute { path, args } => {
            assert_eq!(path, "/opt/cx/tool-1.2.3");
            assert!(args.is_empty());
        }
        other => panic!("unexpected action: {other:?}"),
    }
    match run_application(&cli, &target, &h, Progress::Installed { version: v("1.2.3"), present: false }) {
        Action::Fail(RunError::Path(e)) => assert_eq!(e, PathError::BinaryNotFound),
        other => panic!("unexpected action: {other:?}"),
    }
}

#[test]
fn force_installs_whatever_is_there() {
    let h = host();
    let cli = cli_for(&["--force", "tool"]);
    let target = parse_target_from_cli(&cli).unwrap();
    assert!(matches!(
        run_application(&cli, &target, &h, Progress::Started),
        Action::FetchVersions { requirement: None, .. }
    ));
    let looked = Progress::Looked { on_path: Some("/usr/bin/tool".to_string()), present: vec![true, true] };
    assert!(matches!(run_application(&cli, &target, &h, looked), Action::FetchVersions { .. }));
    let resolved = Progress::Resolved { outcome: Ok(v("2.0.0")) };
    match run_application(&cli, &target, &h, resolved) {
        Action::Install { version, path } => {
            assert_eq!(version.as_str(), "2.0.0");
            assert_eq!(path, "/opt/cx/tool-2.0.0");
        }
        other => panic!("unexpected action: {other:?}"),
    }
    let probed = Progress::Probed { version: v("2.0.0"), present: true };
    assert!(matches!(run_application(&cli, &target, &h, probed), Action::Install { .. }));
}

#[test]
fn unversioned_request_reuses_what_is_installed() {
    let h = host();
    let cli = cli_for(&["tool", "arg"]);
    let target = parse_target_from_cli(&cli).unwrap();
    match run_application(&cli, &target, &h, Progress::Started) {
        Action::LookUp { name, files } => {
            assert_eq!(name, "tool");
            assert_eq!(files, strings(&["/opt/cx/bin/tool", "/opt/cx/tool"]));
        }
        other => panic!("unexpected action: {other:?}"),
    }
    let on_path = Progress::Looked { on_path: Some("/usr/bin/tool".to_string()), present: vec![false, false] };
    match run_application(&cli, &target, &h, on_path) {
        Action::Execute { path, args } => {
            assert_eq!(path, "/usr/bin/tool");
            assert_eq!(args, strings(&["arg"]));
        }
        other => panic!("unexpected action: {other:?}"),
    }
    let managed = Progress::Looked { on_path: None, present: vec![false, true] };
    match run_application(&cli, &target, &h, managed) {
        Action::Execute { path, .. } => assert_eq!(path, "/opt/cx/tool"),
        other => panic!("unexpected action: {other:?}"),
    }
    let nowhere = Progress::Looked { on_path: None, present: vec![false, false] };
    assert!(matches!(
        run_application(&cli, &target, &h, nowhere),
        Action::FetchVersions { requirement: None, .. }
    ));
}

#[test]
fn latest_always_asks_the_registry() {
    let h = host();
    let cli = cli_for(&["tool@latest"]);
    let target = parse_target_from_cli(&cli).unwrap();
    assert!(matches!(
        run_application(&cli, &target, &h, Progress::Started),
        Action::FetchVersions { requirement: None, .. }
    ));
    let looked = Progress::Looked { on_path: Some("/usr/bin/tool".to_string()), present: vec![] };
    assert!(matches!(run_application(&cli, &target, &h, looked), Action::FetchVersions { .. }));
}

#[test]
fn registry_failures_end_the_run() {
    let h = host();
    let cli = cli_for(&["tool@1"]);
    let target = parse_target_from_cli(&cli).unwrap();
    for (error, expected) in [
        (RegistryError::NoVersionsFound, "no published versions found"),
        (RegistryError::NoMatchingVersion, "no published version satisfies the requirement"),
        (RegistryError::Unavailable { cause: "timed out".to_string() }, "failed to contact crates.io"),
    ] {
        match run_application(&cli, &target, &h, Progress::Resolved { outcome: Err(error) }) {
            Action::Fail(RunError::Registry(e)) => assert_eq!(e.message(), expected),
            other => panic!("unexpected action: {other:?}"),
        }
    }
    let unavailable = RegistryError::Unavailable { cause: "timed out".to_string() };
    assert_eq!(unavailable.cause(), Some(&"timed out".to_string()));
    assert_eq!(RegistryError::NoVersionsFound.cause(), None);
}

#[test]
fn run_without_an_install_root_fails() {
    let nowhere = Host { platform: Platform::Unix, env: Vec::new(), data_dir: None };
    let cli = cli_for(&["tool@1"]);
    let target = parse_target_from_cli(&cli).unwrap();
    for progress in [
        Progress::Resolved { outcome: Ok(v("1.0.0")) },
        Progress::Probed { version: v("1.0.0"), present: true },
        Progress::Installed { version: v("1.0.0"), present: true },
    ] {
        match run_application(&cli, &target, &nowhere, progress) {
            Action::Fail(RunError::Path(e)) => assert_eq!(e, PathError::NoInstallDirectory),
            other => panic!("unexpected action: {other:?}"),
        }
    }
}

#[test]
fn target_can_be_built_by_hand() {
    let target = Target {
        crate_name: "ripgrep".to_string(),
        version: VersionSpec::Latest,
        binary: "rg".to_string(),
    };
    let cli = cli_for(&["ripgrep@latest"]);
    match run_application(&cli, &target, &host(), Progress::Resolved { outcome: Ok(v("14.1.0")) }) {
        Action::ProbeVersion { path, .. } => assert_eq!(path, "/opt/cx/rg-14.1.0"),
        other => panic!("unexpected action: {other:?}"),
    }
}
