//! The command line: options, the crate specification, and the arguments
//! that are handed on to the executable.

use vstd::prelude::*;
use vstd::string::*;
use crate::text::{reads, starts_with_char, texts};

verus! {

/// What the command line asked for.
#[derive(Debug)]
pub struct Cli {
    /// The crate to run, as `name` or `name@version`.
    pub crate_spec: String,
    /// The executable to run, where the crate has several.
    pub bin: Option<String>,
    /// The arguments for the executable.
    pub args: Vec<String>,
    /// Install again even if the executable is there already.
    pub force: bool,
    /// Keep the installer quiet.
    pub quiet: bool,
    /// Build from source even where a pre-built artifact could be had.
    pub build_from_source: bool,
}

/// The mathematical value of a [`Cli`].
pub struct CliView {
    pub crate_spec: Seq<char>,
    pub bin: Option<Seq<char>>,
    pub args: Seq<Seq<char>>,
    pub force: bool,
    pub quiet: bool,
    pub build_from_source: bool,
}

impl View for Cli {
    type V = CliView;

    open spec fn view(&self) -> CliView {
        CliView {
            crate_spec: self.crate_spec@,
            bin: match self.bin {
                Some(bin) => Some(bin@),
                None => None,
            },
            args: texts(self.args@),
            force: self.force,
            quiet: self.quiet,
            build_from_source: self.build_from_source,
        }
    }
}

/// Why a command line was rejected.
#[derive(Debug, Clone, Copy, PartialEq, Eq, Structural)]
pub enum CliError {
    /// No crate specification was given.
    MissingCrateSpec,
    /// `--bin` stands last, without the name it announces.
    MissingBinName,
    /// An option that is not known stands before the crate specification.
    UnknownOption,
}

/// What a command-line error says.
pub open spec fn cli_error_text(e: CliError) -> Seq<char> {
    match e {
        CliError::MissingCrateSpec => "no crate was named"@,
        CliError::MissingBinName => "`--bin` needs the name of an executable"@,
        CliError::UnknownOption => "unknown option before the crate"@,
    }
}

impl CliError {
    /// What the error says.
    pub fn message(&self) -> (r: String)
        ensures
            r@ == cli_error_text(*self),
    {
        match self {
            CliError::MissingCrateSpec => String::from_str("no crate was named"),
            CliError::MissingBinName => String::from_str("`--bin` needs the name of an executable"),
            CliError::UnknownOption => String::from_str("unknown option before the crate"),
        }
    }
}

/// The options read so far.
pub struct Options {
    pub bin: Option<Seq<char>>,
    pub force: bool,
    pub quiet: bool,
    pub build_from_source: bool,
}

/// The command line from its crate specification on: the word at `at` is
/// the specification and what follows it goes to the executable, but for one
/// `--` that may stand in front.
pub open spec fn parsed_positionals(words: Seq<Seq<char>>, at: int, options: Options) -> Result<
    CliView,
    CliError,
> {
    if at < 0 || at >= words.len() {
        Err(CliError::MissingCrateSpec)
    } else {
        let rest = words.skip(at + 1);
        Ok(
            CliView {
                crate_spec: words[at],
                bin: options.bin,
                args: if rest.len() > 0 && rest[0] == "--"@ {
                    rest.skip(1)
                } else {
                    rest
                },
                force: options.force,
                quiet: options.quiet,
                build_from_source: options.build_from_source,
            },
        )
    }
}

/// The command line from the word at `at` on, with `options` read before it.
///
/// Options come first: `-f` or `--force`, `-q` or `--quiet`, `-s` or
/// `--build-from-source`, and `--bin` followed by a name. A `--` ends the
/// options, and so does the first word that does not begin with `-`.
pub open spec fn parsed_options(words: Seq<Seq<char>>, at: int, options: Options) -> Result<
    CliView,
    CliError,
>
    decreases words.len() - at,
{
    if at < 0 || at >= words.len() {
        Err(CliError::MissingCrateSpec)
    } else {
        let word = words[at];
        if word == "--force"@ || word == "-f"@ {
            parsed_options(words, at + 1, Options { force: true, ..options })
        } else if word == "--quiet"@ || word == "-q"@ {
            parsed_options(words, at + 1, Options { quiet: true, ..options })
        } else if word == "--build-from-source"@ || word == "-s"@ {
            parsed_options(words, at + 1, Options { build_from_source: true, ..options })
        } else if word == "--bin"@ {
            if at + 1 >= words.len() {
                Err(CliError::MissingBinName)
            } else {
                parsed_options(words, at + 2, Options { bin: Some(words[at + 1]), ..options })
            }
        } else if word == "--"@ {
            parsed_positionals(words, at + 1, options)
        } else if word.len() > 0 && word[0] == '-' {
            Err(CliError::UnknownOption)
        } else {
            parsed_positionals(words, at, options)
        }
    }
}

/// The meaning of a command line, given without the program's own name.
pub open spec fn parsed_arguments(words: Seq<Seq<char>>) -> Result<CliView, CliError> {
    parsed_options(
        words,
        0,
        Options { bin: None, force: false, quiet: false, build_from_source: false },
    )
}

/// Reads the command line: the words after the program's name.
pub fn parse_arguments(words: &Vec<String>) -> (r: Result<Cli, CliError>)
    ensures
        match r {
            Ok(cli) => parsed_arguments(texts(words@)) == Ok::<CliView, CliError>(cli@),
            Err(e) => parsed_arguments(texts(words@)) == Err::<CliView, CliError>(e),
        },
{
    let ghost all = texts(words@);
    let mut bin: Option<String> = None;
    let mut force = false;
    let mut quiet = false;
    let mut build_from_source = false;
    let mut i: usize = 0;
    let mut spec_at: usize = words.len();
    while i < words.len()
        invariant_except_break
            spec_at == words.len(),
            parsed_arguments(all) == parsed_options(
                all,
                i as int,
                Options {
                    bin: match bin {
                        Some(b) => Some(b@),
                        None => None,
                    },
                    force,
                    quiet,
                    build_from_source,
                },
            ),
        invariant
            i <= words.len(),
            all == texts(words@),
        ensures
            spec_at <= words.len(),
            parsed_arguments(all) == parsed_positionals(
                all,
                spec_at as int,
                Options {
                    bin: match bin {
                        Some(b) => Some(b@),
                        None => None,
                    },
                    force,
                    quiet,
                    build_from_source,
                },
            ),
        decreases words.len() - i,
    {
        let word = &words[i];
        assert(all[i as int] == word@);
        if reads(word, "--force") || reads(word, "-f") {
            force = true;
            i += 1;
        } else if reads(word, "--quiet") || reads(word, "-q") {
            quiet = true;
            i += 1;
        } else if reads(word, "--build-from-source") || reads(word, "-s") {
            build_from_source = true;
            i += 1;
        } else if reads(word, "--bin") {
            if i + 1 >= words.len() {
                return Err(CliError::MissingBinName);
            }
            assert(all[i + 1] == words@[i + 1]@);
            bin = Some(words[i + 1].clone());
            i += 2;
        } else if reads(word, "--") {
            spec_at = i + 1;
            break;
        } else if starts_with_char(word.as_str(), '-') {
            return Err(CliError::UnknownOption);
        } else {
            spec_at = i;
            break;
        }
    }
    if spec_at >= words.len() {
        return Err(CliError::MissingCrateSpec);
    }
    assert(all[spec_at as int] == words@[spec_at as int]@);
    let crate_spec = words[spec_at].clone();
    let mut from: usize = spec_at + 1;
    let ghost rest = all.skip(spec_at + 1);
    if from < words.len() && reads(&words[from], "--") {
        assert(rest[0] == all[from as int]);
        from += 1;
    } else if from < words.len() {
        assert(rest[0] == all[from as int]);
    }
    let ghost expected = all.skip(from as int);
    assert(expected =~= if rest.len() > 0 && rest[0] == "--"@ {
        rest.skip(1)
    } else {
        rest
    });
    let mut args: Vec<String> = Vec::new();
    let mut k: usize = from;
    while k < words.len()
        invariant
            from <= k <= words.len(),
            all == texts(words@),
            args@.len() == k - from,
            forall|j: int| 0 <= j < args@.len() ==> (#[trigger] args@[j])@ == all[from + j],
        decreases words.len() - k,
    {
        assert(all[k as int] == words@[k as int]@);
        args.push(words[k].clone());
        k += 1;
    }
    assert(texts(args@) =~= expected);
    Ok(Cli { crate_spec, bin, args, force, quiet, build_from_source })
}

} // verus!
