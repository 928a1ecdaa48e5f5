//! Where managed executables live and how an executable is looked up.
//!
//! Nothing here touches the file system. What the machine has to say (its
//! environment, its per-user data directory, which files exist) comes in as
//! plain values, gathered by the caller in a [`Host`]; what comes out are the
//! paths to create, probe or run.

use vstd::prelude::*;
use vstd::string::*;
use crate::version::Version;

verus! {

/// How the machine names its executables.
#[derive(Debug, Clone, Copy, PartialEq, Eq, Structural)]
pub enum Platform {
    /// Executables carry no suffix.
    Unix,
    /// Executables end in `.exe`.
    Windows,
}

/// What the library needs to know of the machine it runs on.
#[derive(Debug)]
pub struct Host {
    /// How executables are named.
    pub platform: Platform,
    /// The environment of the process, as pairs of name and value.
    pub env: Vec<(String, String)>,
    /// The per-user data directory that the platform reserves for this
    /// application, where it has one.
    pub data_dir: Option<String>,
}

/// The install root and whether it is the caller's to create.
#[derive(Debug)]
pub struct InstallDir {
    /// The root under which every managed executable is kept.
    pub path: String,
    /// Whether a missing root is to be created at once. A root that the user
    /// chose through the override variable is left alone until something is
    /// installed into it.
    pub create: bool,
}

/// Why a path could not be determined.
#[derive(Debug, Clone, Copy, PartialEq, Eq, Structural)]
pub enum PathError {
    /// Neither an override, nor a data directory, nor a home directory is known.
    NoInstallDirectory,
    /// The executable is in none of the places searched.
    BinaryNotFound,
}

/// What a path error says.
pub open spec fn path_error_text(e: PathError) -> Seq<char> {
    match e {
        PathError::NoInstallDirectory => "unable to determine install directory"@,
        PathError::BinaryNotFound => "cannot find binary path"@,
    }
}

impl PathError {
    /// What the error says.
    pub fn message(&self) -> (r: String)
        ensures
            r@ == path_error_text(*self),
    {
        match self {
            PathError::NoInstallDirectory => String::from_str(
                "unable to determine install directory",
            ),
            PathError::BinaryNotFound => String::from_str("cannot find binary path"),
        }
    }
}

/// The value of the first variable called `name` in `env`.
pub open spec fn variable(env: Seq<(String, String)>, name: Seq<char>) -> Option<Seq<char>>
    decreases env.len(),
{
    if env.len() == 0 {
        None
    } else if env[0].0@ == name {
        Some(env[0].1@)
    } else {
        variable(env.drop_first(), name)
    }
}

/// The user's home directory: `HOME`, else `USERPROFILE`.
pub open spec fn home_of(env: Seq<(String, String)>) -> Option<Seq<char>> {
    match variable(env, "HOME"@) {
        Some(home) => Some(home),
        None => variable(env, "USERPROFILE"@),
    }
}

/// `child` inside the directory `base`.
pub open spec fn joined(base: Seq<char>, child: Seq<char>) -> Seq<char> {
    base + seq!['/'] + child
}

/// The suffix that the platform's executables carry.
pub open spec fn exe_suffix(platform: Platform) -> Seq<char> {
    match platform {
        Platform::Unix => Seq::empty(),
        Platform::Windows => ".exe"@,
    }
}

/// The install root and whether to create it: the value of
/// `CARGOX_INSTALL_DIR`, else the platform's data directory, else
/// `.local/share/cargox` under the home directory.
pub open spec fn install_dir_of(host: Host) -> Option<(Seq<char>, bool)> {
    match variable(host.env@, "CARGOX_INSTALL_DIR"@) {
        Some(path) => Some((path, false)),
        None => match host.data_dir {
            Some(dir) => Some((dir@, true)),
            None => match home_of(host.env@) {
                Some(home) => Some((joined(home, ".local/share/cargox"@), true)),
                None => None,
            },
        },
    }
}

/// The install root alone.
pub open spec fn install_root(host: Host) -> Option<Seq<char>> {
    match install_dir_of(host) {
        Some(dir) => Some(dir.0),
        None => None,
    }
}

/// The directories searched for an executable after `PATH`: the `bin`
/// directory of the install root, then the root itself.
pub open spec fn candidate_dirs_of(host: Host) -> Seq<Seq<char>> {
    match install_root(host) {
        Some(root) => seq![joined(root, "bin"@), root],
        None => Seq::empty(),
    }
}

/// The names under which an executable called `name` may be stored.
pub open spec fn file_names(name: Seq<char>, platform: Platform) -> Seq<Seq<char>> {
    match platform {
        Platform::Unix => seq![name],
        Platform::Windows => seq![name, name + ".exe"@],
    }
}

/// Every file name in every directory: directories first, names second.
pub open spec fn files_in(dirs: Seq<Seq<char>>, names: Seq<Seq<char>>) -> Seq<Seq<char>> {
    Seq::new(
        dirs.len() * names.len(),
        |k: int| joined(dirs[k / names.len() as int], names[k % names.len() as int]),
    )
}

/// The files probed for an executable called `name`, in order.
pub open spec fn binary_candidates_of(name: Seq<char>, host: Host) -> Seq<Seq<char>> {
    files_in(candidate_dirs_of(host), file_names(name, host.platform))
}

/// The name of the file that holds `version` of the executable `binary`.
pub open spec fn versioned_file(binary: Seq<char>, version: Seq<char>, platform: Platform) -> Seq<
    char,
> {
    binary + seq!['-'] + version + exe_suffix(platform)
}

/// The file that holds `version` of the executable `binary` under `root`.
pub open spec fn versioned_path(
    root: Seq<char>,
    binary: Seq<char>,
    version: Seq<char>,
    platform: Platform,
) -> Seq<char> {
    joined(root, versioned_file(binary, version, platform))
}

/// `path` lies inside the directory `root`.
pub open spec fn is_under(path: Seq<char>, root: Seq<char>) -> bool {
    &&& path.len() >= root.len() + 1
    &&& path.take(root.len() as int + 1) == root + seq!['/']
}

/// The position of the first file that exists, if any: the least position
/// within both `count` and `present` at which `present` holds.
pub open spec fn first_present(present: Seq<bool>, count: int) -> Option<int>
    decreases present.len(),
{
    if present.len() == 0 || count <= 0 {
        None
    } else if present[0] {
        Some(0)
    } else {
        match first_present(present.drop_first(), count - 1) {
            Some(at) => Some(at + 1),
            None => None,
        }
    }
}

/// The install root depends on three variables of the environment and on
/// nothing else in it: two hosts that agree on `CARGOX_INSTALL_DIR`, `HOME`
/// and `USERPROFILE`, on the data directory and on the platform have the
/// same root and search the same places, whatever else their environments
/// hold.
pub proof fn lemma_root_ignores_other_variables(a: Host, b: Host, name: Seq<char>)
    requires
        a.platform == b.platform,
        a.data_dir is Some <==> b.data_dir is Some,
        a.data_dir matches Some(x) ==> x@ == b.data_dir->0@,
        variable(a.env@, "CARGOX_INSTALL_DIR"@) == variable(b.env@, "CARGOX_INSTALL_DIR"@),
        variable(a.env@, "HOME"@) == variable(b.env@, "HOME"@),
        variable(a.env@, "USERPROFILE"@) == variable(b.env@, "USERPROFILE"@),
    ensures
        install_dir_of(a) == install_dir_of(b),
        candidate_dirs_of(a) == candidate_dirs_of(b),
        binary_candidates_of(name, a) == binary_candidates_of(name, b),
{
}

/// Every file probed for an executable lies inside the install root.
pub proof fn lemma_candidates_under_root(name: Seq<char>, host: Host, k: int)
    requires
        0 <= k < binary_candidates_of(name, host).len(),
    ensures
        install_root(host) is Some,
        is_under(binary_candidates_of(name, host)[k], install_root(host)->0),
{
    let root = install_root(host)->0;
    let dirs = candidate_dirs_of(host);
    let names = file_names(name, host.platform);
    assert(dirs.len() > 0) by {
        if install_root(host) is None {
            assert(dirs.len() * names.len() == 0) by (nonlinear_arith)
                requires
                    dirs.len() == 0,
            ;
        }
    }
    let n = names.len() as int;
    assert(0 <= k / n < dirs.len()) by (nonlinear_arith)
        requires
            0 <= k < dirs.len() * n,
            n > 0,
    ;
    let dir = dirs[k / n];
    let file = names[k % n];
    let path = joined(dir, file);
    assert(path.take(root.len() as int + 1) =~= root + seq!['/']);
}

/// The place of a version lies inside the install root.
pub proof fn lemma_versioned_path_under_root(
    root: Seq<char>,
    binary: Seq<char>,
    version: Seq<char>,
    platform: Platform,
)
    ensures
        is_under(versioned_path(root, binary, version, platform), root),
{
    let path = versioned_path(root, binary, version, platform);
    assert(path.take(root.len() as int + 1) =~= root + seq!['/']);
}

/// What `first_present` finds is the first file that exists, among those
/// that both `count` and `present` reach; it finds none only where none of
/// them exists.
pub proof fn lemma_first_present(present: Seq<bool>, count: int)
    ensures
        match first_present(present, count) {
            Some(at) => {
                &&& 0 <= at < count
                &&& at < present.len()
                &&& present[at]
                &&& forall|j: int| 0 <= j < at ==> !present[j]
            },
            None => forall|j: int| 0 <= j < count && j < present.len() ==> !present[j],
        },
    decreases present.len(),
{
    if present.len() > 0 && count > 0 && !present[0] {
        let rest = present.drop_first();
        lemma_first_present(rest, count - 1);
        match first_present(rest, count - 1) {
            Some(at) => {
                assert forall|j: int| 0 <= j < at + 1 implies !present[j] by {
                    if j > 0 {
                        assert(present[j] == rest[j - 1]);
                    }
                }
            },
            None => {
                assert forall|j: int| 0 <= j < count && j < present.len() implies !present[j] by {
                    if j > 0 {
                        assert(present[j] == rest[j - 1]);
                    }
                }
            },
        }
    }
}

/// Two versions of one executable never share a file: under one root, for
/// one executable and on one platform, different versions have different
/// paths.
pub proof fn lemma_versions_never_collide(
    root: Seq<char>,
    binary: Seq<char>,
    first: Seq<char>,
    second: Seq<char>,
    platform: Platform,
)
    requires
        first != second,
    ensures
        versioned_path(root, binary, first, platform) != versioned_path(
            root,
            binary,
            second,
            platform,
        ),
{
    let p = versioned_path(root, binary, first, platform);
    let q = versioned_path(root, binary, second, platform);
    let lead = root.len() as int + 1 + binary.len() as int + 1;
    if p == q {
        assert(p.len() == lead + first.len() + exe_suffix(platform).len());
        assert(q.len() == lead + second.len() + exe_suffix(platform).len());
        assert(first.len() == second.len());
        assert(first =~= p.subrange(lead, lead + first.len() as int));
        assert(second =~= q.subrange(lead, lead + second.len() as int));
    }
}

/// `child` inside the directory `base`.
pub fn join(base: &str, child: &str) -> (r: String)
    ensures
        r@ == joined(base@, child@),
{
    let mut path = String::from_str(base);
    path.append("/");
    path.append(child);
    proof {
        reveal_strlit("/");
        assert("/"@ =~= seq!['/']);
    }
    path
}

/// The value of the first variable called `name` in `env`.
pub fn env_variable(env: &Vec<(String, String)>, name: &str) -> (r: Option<String>)
    ensures
        match r {
            Some(value) => variable(env@, name@) == Some(value@),
            None => variable(env@, name@) is None,
        },
{
    let key = String::from_str(name);
    let mut i: usize = 0;
    assert(env@.skip(0) =~= env@);
    while i < env.len()
        invariant
            i <= env.len(),
            key@ == name@,
            variable(env@, name@) == variable(env@.skip(i as int), name@),
        decreases env.len() - i,
    {
        if env[i].0 == key {
            assert(env@.skip(i as int)[0] == env@[i as int]);
            return Some(env[i].1.clone());
        }
        assert(env@.skip(i as int).drop_first() =~= env@.skip(i + 1));
        i += 1;
    }
    assert(env@.skip(i as int).len() == 0);
    None
}

/// Finds the install root.
///
/// The override variable `CARGOX_INSTALL_DIR` comes first, then the data
/// directory that the platform reserves for the application, then
/// `.local/share/cargox` under the home directory. No other variable of the
/// environment is looked at.
pub fn get_install_dir(host: &Host) -> (r: Result<InstallDir, PathError>)
    ensures
        match r {
            Ok(dir) => install_dir_of(*host) == Some((dir.path@, dir.create)),
            Err(e) => install_dir_of(*host) is None && e == PathError::NoInstallDirectory,
        },
{
    if let Some(path) = env_variable(&host.env, "CARGOX_INSTALL_DIR") {
        return Ok(InstallDir { path, create: false });
    }
    if let Some(dir) = &host.data_dir {
        return Ok(InstallDir { path: dir.clone(), create: true });
    }
    let home = match env_variable(&host.env, "HOME") {
        Some(home) => Some(home),
        None => env_variable(&host.env, "USERPROFILE"),
    };
    match home {
        Some(home) => Ok(
            InstallDir { path: join(home.as_str(), ".local/share/cargox"), create: true },
        ),
        None => Err(PathError::NoInstallDirectory),
    }
}

/// The directories searched for an executable after `PATH`: the `bin`
/// directory of the install root, then the root itself; none where no
/// install root can be found.
pub fn candidate_bin_dirs(host: &Host) -> (r: Vec<String>)
    ensures
        r@.len() == candidate_dirs_of(*host).len(),
        forall|i: int| 0 <= i < r@.len() ==> (#[trigger] r@[i])@ == candidate_dirs_of(*host)[i],
{
    let mut dirs: Vec<String> = Vec::new();
    if let Ok(install_dir) = get_install_dir(host) {
        dirs.push(join(install_dir.path.as_str(), "bin"));
        dirs.push(install_dir.path);
    }
    dirs
}

/// The names under which an executable called `name` may be stored.
pub fn candidate_file_names(name: &str, platform: Platform) -> (r: Vec<String>)
    ensures
        r@.len() == file_names(name@, platform).len(),
        forall|i: int| 0 <= i < r@.len() ==> (#[trigger] r@[i])@ == file_names(name@, platform)[i],
{
    let mut names: Vec<String> = Vec::new();
    names.push(String::from_str(name));
    match platform {
        Platform::Unix => {},
        Platform::Windows => {
            let mut with_suffix = String::from_str(name);
            with_suffix.append(".exe");
            names.push(with_suffix);
        },
    }
    names
}

/// The files to probe for an executable called `name`, in the order in
/// which they are searched.
pub fn binary_candidates(name: &str, host: &Host) -> (r: Vec<String>)
    ensures
        r@.len() == binary_candidates_of(name@, *host).len(),
        forall|k: int|
            0 <= k < r@.len() ==> (#[trigger] r@[k])@ == binary_candidates_of(name@, *host)[k],
{
    let dirs = candidate_bin_dirs(host);
    let names = candidate_file_names(name, host.platform);
    let ghost spec_dirs = candidate_dirs_of(*host);
    let ghost spec_names = file_names(name@, host.platform);
    let ghost n = names@.len() as int;
    let mut files: Vec<String> = Vec::new();
    let mut d: usize = 0;
    while d < dirs.len()
        invariant
            d <= dirs.len(),
            n == names@.len(),
            n == spec_names.len(),
            n > 0,
            dirs@.len() == spec_dirs.len(),
            forall|i: int| 0 <= i < dirs@.len() ==> (#[trigger] dirs@[i])@ == spec_dirs[i],
            forall|i: int| 0 <= i < names@.len() ==> (#[trigger] names@[i])@ == spec_names[i],
            files@.len() == d * n,
            forall|k: int|
                0 <= k < files@.len() ==> (#[trigger] files@[k])@ == joined(
                    spec_dirs[k / n],
                    spec_names[k % n],
                ),
        decreases dirs.len() - d,
    {
        let mut f: usize = 0;
        while f < names.len()
            invariant
                d < dirs.len(),
                f <= names.len(),
                n == names@.len(),
                n == spec_names.len(),
                n > 0,
                dirs@.len() == spec_dirs.len(),
                forall|i: int| 0 <= i < dirs@.len() ==> (#[trigger] dirs@[i])@ == spec_dirs[i],
                forall|i: int| 0 <= i < names@.len() ==> (#[trigger] names@[i])@ == spec_names[i],
                files@.len() == d * n + f,
                forall|k: int|
                    0 <= k < files@.len() ==> (#[trigger] files@[k])@ == joined(
                        spec_dirs[k / n],
                        spec_names[k % n],
                    ),
            decreases names.len() - f,
        {
            let ghost k = files@.len() as int;
            assert(k / n == d && k % n == f) by (nonlinear_arith)
                requires
                    k == d * n + f,
                    0 <= f < n,
            ;
            files.push(join(dirs[d].as_str(), names[f].as_str()));
            f += 1;
        }
        assert(d * n + n == (d + 1) * n) by (nonlinear_arith);
        d += 1;
    }
    assert(dirs@.len() * n == spec_dirs.len() * spec_names.len());
    files
}

/// Looks an executable up without regard to its version.
///
/// `on_path` is where the system's `PATH` has the executable, if it has it;
/// `present` says of each file of [`binary_candidates`], in order, whether
/// it exists (a file that `present` does not reach counts as missing). What
/// `PATH` has wins; else the first candidate that exists; else the
/// executable is not installed.
pub fn resolve_binary_path(
    name: &str,
    host: &Host,
    on_path: Option<String>,
    present: &Vec<bool>,
) -> (r: Result<String, PathError>)
    ensures
        match on_path {
            Some(found) => r matches Ok(path) && path@ == found@,
            None => {
                let files = binary_candidates_of(name@, *host);
                match first_present(present@, files.len() as int) {
                    Some(at) => r matches Ok(path) && path@ == files[at],
                    None => r == Err::<String, PathError>(PathError::BinaryNotFound),
                }
            },
        },
        r matches Ok(path) ==> (on_path matches Some(found) && path@ == found@) || (install_root(
            *host,
        ) matches Some(root) && is_under(path@, root)),
{
    if let Some(found) = on_path {
        return Ok(found);
    }
    let files = binary_candidates(name, host);
    let ghost spec_files = binary_candidates_of(name@, *host);
    let mut i: usize = 0;
    assert(present@.skip(0) =~= present@);
    while i < files.len() && i < present.len()
        invariant
            i <= files.len(),
            i <= present.len(),
            on_path is None,
            spec_files == binary_candidates_of(name@, *host),
            files@.len() == spec_files.len(),
            forall|k: int| 0 <= k < files@.len() ==> (#[trigger] files@[k])@ == spec_files[k],
            first_present(present@, spec_files.len() as int) == (match first_present(
                present@.skip(i as int),
                spec_files.len() - i,
            ) {
                Some(at) => Some(at + i),
                None => None,
            }),
        decreases files.len() - i,
    {
        if present[i] {
            assert(present@.skip(i as int)[0] == present@[i as int]);
            proof {
                lemma_candidates_under_root(name@, *host, i as int);
            }
            return Ok(files[i].clone());
        }
        assert(present@.skip(i as int).drop_first() =~= present@.skip(i + 1));
        i += 1;
    }
    Err(PathError::BinaryNotFound)
}

/// The name of the file that holds `version` of the executable `binary`:
/// `<binary>-<version>` with the platform's suffix.
pub fn versioned_file_name(binary: &str, version: &Version, platform: Platform) -> (r: String)
    ensures
        r@ == versioned_file(binary@, version@, platform),
{
    let mut file = String::from_str(binary);
    file.append("-");
    file.append(version.as_str());
    match platform {
        Platform::Unix => {},
        Platform::Windows => {
            file.append(".exe");
        },
    }
    proof {
        reveal_strlit("-");
        assert("-"@ =~= seq!['-']);
        assert(file@ =~= binary@ + seq!['-'] + version@ + exe_suffix(platform));
    }
    file
}

/// The file that holds `version` of the executable `binary`: the install
/// root, then `<binary>-<version>` with the platform's suffix.
pub fn versioned_binary_path(binary: &str, version: &Version, host: &Host) -> (r: Result<
    String,
    PathError,
>)
    ensures
        match r {
            Ok(path) => {
                &&& install_root(*host) matches Some(root)
                &&& path@ == versioned_path(root, binary@, version@, host.platform)
                &&& is_under(path@, root)
            },
            Err(e) => install_root(*host) is None && e == PathError::NoInstallDirectory,
        },
{
    let install_dir = match get_install_dir(host) {
        Ok(dir) => dir,
        Err(e) => {
            return Err(e);
        },
    };
    let file = versioned_file_name(binary, version, host.platform);
    let path = join(install_dir.path.as_str(), file.as_str());
    assert(path@.take(install_dir.path@.len() as int + 1) =~= install_dir.path@ + seq!['/']);
    Ok(path)
}

/// Looks a given version of an executable up: there is one place where it
/// can be, and `present` says whether it is there.
pub fn resolve_cargox_binary_path(
    binary: &str,
    version: &Version,
    host: &Host,
    present: bool,
) -> (r: Result<String, PathError>)
    ensures
        match r {
            Ok(path) => {
                &&& present
                &&& install_root(*host) matches Some(root)
                &&& path@ == versioned_path(root, binary@, version@, host.platform)
            },
            Err(e) => if install_root(*host) is None {
                e == PathError::NoInstallDirectory
            } else {
                !present && e == PathError::BinaryNotFound
            },
        },
{
    let path = versioned_binary_path(binary, version, host)?;
    if present {
        Ok(path)
    } else {
        Err(PathError::BinaryNotFound)
    }
}

} // verus!
