//! Crate specifications: `name`, `name@latest` or `name@<requirement>`.

use vstd::prelude::*;
use vstd::string::*;
use crate::text::{
    chars_of, eq_ignoring_ascii_case, find_char, is_blank, is_space, lemma_leading_spaces_bounds,
    lemma_position_of, lemma_position_of_bounds, lemma_trailing_spaces_bounds,
    lemma_trimmed_edges, position_of, range_eq_ignoring_ascii_case, trim_range, trimmed,
};
use crate::version::{requirement_text, VersionReq};

verus! {

/// Which version of a crate is asked for.
#[derive(Debug)]
pub enum VersionSpec {
    /// No version was given: any installed build will do, else the newest.
    Unspecified,
    /// The newest published version, whatever is installed.
    Latest,
    /// A version that satisfies the requirement.
    Requirement(VersionReq),
}

/// The mathematical value of a [`VersionSpec`].
pub enum VersionSpecView {
    Unspecified,
    Latest,
    Requirement(Seq<char>),
}

impl View for VersionSpec {
    type V = VersionSpecView;

    open spec fn view(&self) -> VersionSpecView {
        match self {
            VersionSpec::Unspecified => VersionSpecView::Unspecified,
            VersionSpec::Latest => VersionSpecView::Latest,
            VersionSpec::Requirement(req) => VersionSpecView::Requirement(req@),
        }
    }
}

impl Clone for VersionSpec {
    fn clone(&self) -> (r: Self)
        ensures
            r@ == self@,
    {
        match self {
            VersionSpec::Unspecified => VersionSpec::Unspecified,
            VersionSpec::Latest => VersionSpec::Latest,
            VersionSpec::Requirement(req) => VersionSpec::Requirement(req.clone()),
        }
    }
}

/// What is to be installed and run: a crate, the version asked for, and the
/// name of the executable within it.
#[derive(Debug)]
pub struct Target {
    pub crate_name: String,
    pub version: VersionSpec,
    pub binary: String,
}

/// The mathematical value of a [`Target`].
pub struct TargetView {
    pub crate_name: Seq<char>,
    pub version: VersionSpecView,
    pub binary: Seq<char>,
}

impl View for Target {
    type V = TargetView;

    open spec fn view(&self) -> TargetView {
        TargetView { crate_name: self.crate_name@, version: self.version@, binary: self.binary@ }
    }
}

/// Why a crate specification was rejected.
#[derive(Debug, Clone, Copy, PartialEq, Eq, Structural)]
pub enum SpecError {
    /// The specification is empty or whitespace only.
    Empty,
    /// Nothing but whitespace stands before the `@`.
    EmptyName,
    /// More than one `@` occurs.
    TooManySeparators,
    /// Nothing but whitespace stands after the `@`.
    EmptyVersion,
    /// What stands after the `@` is neither `latest` nor a requirement.
    MalformedVersion,
}

/// What a specification error says.
pub open spec fn spec_error_text(e: SpecError) -> Seq<char> {
    match e {
        SpecError::Empty => "crate spec cannot be empty"@,
        SpecError::EmptyName => "crate name cannot be empty"@,
        SpecError::TooManySeparators =>
            "invalid crate spec: expected at most one `@version` suffix"@,
        SpecError::EmptyVersion => "invalid crate spec: version cannot be empty after `@`"@,
        SpecError::MalformedVersion => "invalid crate spec: failed to parse version requirement"@,
    }
}

impl SpecError {
    /// What the error says.
    pub fn message(&self) -> (r: String)
        ensures
            r@ == spec_error_text(*self),
    {
        match self {
            SpecError::Empty => String::from_str("crate spec cannot be empty"),
            SpecError::EmptyName => String::from_str("crate name cannot be empty"),
            SpecError::TooManySeparators => String::from_str(
                "invalid crate spec: expected at most one `@version` suffix",
            ),
            SpecError::EmptyVersion => String::from_str(
                "invalid crate spec: version cannot be empty after `@`",
            ),
            SpecError::MalformedVersion => String::from_str(
                "invalid crate spec: failed to parse version requirement",
            ),
        }
    }
}

/// A crate name as the parser hands it out: not empty, without whitespace
/// at either end, and free of `@`.
pub open spec fn is_crate_name(name: Seq<char>) -> bool {
    &&& name.len() > 0
    &&& !is_space(name[0])
    &&& !is_space(name.last())
    &&& !name.contains('@')
}

/// What a version token (the trimmed text after the `@`) asks for.
pub open spec fn parsed_version_token(token: Seq<char>) -> Result<VersionSpecView, SpecError> {
    if token.len() == 0 {
        Err(SpecError::EmptyVersion)
    } else if eq_ignoring_ascii_case(token, "latest"@) {
        Ok(VersionSpecView::Latest)
    } else {
        match requirement_text(token) {
            Some(req) => Ok(VersionSpecView::Requirement(req)),
            None => Err(SpecError::MalformedVersion),
        }
    }
}

/// The meaning of a crate specification.
///
/// The text before the first `@` is the name and the text after it the
/// version token, both trimmed. A blank specification, a blank name, a
/// second `@` and a bad token are errors, looked for in that order.
pub open spec fn parsed_spec(spec: Seq<char>) -> Result<(Seq<char>, VersionSpecView), SpecError> {
    let cut = position_of(spec, '@');
    let name = trimmed(spec.take(cut as int));
    let rest = spec.skip(cut as int + 1);
    if is_blank(spec) {
        Err(SpecError::Empty)
    } else if name.len() == 0 {
        Err(SpecError::EmptyName)
    } else if cut == spec.len() {
        Ok((name, VersionSpecView::Unspecified))
    } else if rest.contains('@') {
        Err(SpecError::TooManySeparators)
    } else {
        match parsed_version_token(trimmed(rest)) {
            Ok(version) => Ok((name, version)),
            Err(e) => Err(e),
        }
    }
}

/// Whether the executable result `r` is the value `expected`.
pub open spec fn spec_result_is(
    r: Result<(String, VersionSpec), SpecError>,
    expected: Result<(Seq<char>, VersionSpecView), SpecError>,
) -> bool {
    match (r, expected) {
        (Ok((name, version)), Ok((n, v))) => name@ == n && version@ == v,
        (Err(e), Err(x)) => e == x,
        _ => false,
    }
}

/// A text that holds a character that is no whitespace is not blank.
pub proof fn lemma_not_blank(s: Seq<char>, i: int)
    requires
        0 <= i < s.len(),
        !is_space(s[i]),
    ensures
        !is_blank(s),
{
    lemma_leading_spaces_bounds(s);
    let lead = crate::text::leading_spaces(s);
    assert(lead <= i) by {
        if lead > i {
            assert(is_space(s[i]));
        }
    }
    let rest = s.skip(lead as int);
    lemma_trailing_spaces_bounds(rest);
    let trail = crate::text::trailing_spaces(rest);
    assert(trail < rest.len()) by {
        if trail >= rest.len() {
            assert(is_space(rest[i - lead]));
        }
    }
}

/// A name that the parser accepts is a crate name.
pub proof fn lemma_parsed_name(spec: Seq<char>)
    ensures
        parsed_spec(spec) matches Ok(parsed) ==> is_crate_name(parsed.0),
{
    let cut = position_of(spec, '@');
    let head = spec.take(cut as int);
    let name = trimmed(head);
    lemma_position_of_bounds(spec, '@');
    lemma_trimmed_edges(head);
    if name.contains('@') {
        assert(head.contains('@'));
        let i = choose|i: int| 0 <= i < head.len() && head[i] == '@';
        assert(spec[i] == '@');
    }
}

/// A specification without `@` that is not blank names a crate and leaves
/// the version unspecified.
pub proof fn lemma_spec_without_version(spec: Seq<char>)
    requires
        !spec.contains('@'),
        !is_blank(spec),
    ensures
        parsed_spec(spec) == Ok::<(Seq<char>, VersionSpecView), SpecError>(
            (trimmed(spec), VersionSpecView::Unspecified),
        ),
{
    lemma_position_of_bounds(spec, '@');
    assert(spec.take(spec.len() as int) =~= spec);
}

/// A specification with exactly one `@` is read part by part: the name
/// before it and the version token after it.
pub proof fn lemma_spec_with_version(name: Seq<char>, token: Seq<char>)
    requires
        !name.contains('@'),
        !token.contains('@'),
    ensures
        parsed_spec(name + seq!['@'] + token) == (if is_blank(name) {
            Err::<(Seq<char>, VersionSpecView), SpecError>(SpecError::EmptyName)
        } else {
            match parsed_version_token(trimmed(token)) {
                Ok(version) => Ok((trimmed(name), version)),
                Err(e) => Err(e),
            }
        }),
{
    let spec = name + seq!['@'] + token;
    assert(spec[name.len() as int] == '@');
    assert forall|k: int| 0 <= k < name.len() implies #[trigger] spec[k] != '@' by {
        assert(spec[k] == name[k]);
        if name[k] == '@' {
            assert(name.contains('@'));
        }
    }
    lemma_position_of(spec, '@', name.len());
    lemma_not_blank(spec, name.len() as int);
    assert(spec.take(name.len() as int) =~= name);
    assert(spec.skip(name.len() as int + 1) =~= token);
}

/// `name@latest` asks for the newest version however `latest` is cased.
pub proof fn lemma_spec_latest(name: Seq<char>, word: Seq<char>)
    requires
        !name.contains('@'),
        !is_blank(name),
        eq_ignoring_ascii_case(word, "latest"@),
    ensures
        parsed_spec(name + seq!['@'] + word) == Ok::<(Seq<char>, VersionSpecView), SpecError>(
            (trimmed(name), VersionSpecView::Latest),
        ),
        parsed_spec(name + seq!['@'] + word) == parsed_spec(name + seq!['@'] + "latest"@),
{
    reveal_strlit("latest");
    let latest = "latest"@;
    assert(latest.len() == 6);
    lemma_word_latest(word);
    lemma_word_latest(latest);
    lemma_spec_with_version(name, word);
    lemma_spec_with_version(name, latest);
}

/// A word that equals `latest` up to case holds no `@`, and trimming leaves
/// it as it is.
proof fn lemma_word_latest(word: Seq<char>)
    requires
        eq_ignoring_ascii_case(word, "latest"@),
    ensures
        !word.contains('@'),
        trimmed(word) == word,
        word.len() > 0,
{
    reveal_strlit("latest");
    let latest = "latest"@;
    assert(latest.len() == 6);
    assert forall|i: int| 0 <= i < word.len() implies #[trigger] word[i] != '@' && !is_space(
        word[i],
    ) by {
        assert(crate::text::ascii_lower(word[i]) == crate::text::ascii_lower(latest[i]));
        assert(latest[i] == 'l' || latest[i] == 'a' || latest[i] == 't' || latest[i] == 'e'
            || latest[i] == 's');
    }
    if word.contains('@') {
        let i = choose|i: int| 0 <= i < word.len() && word[i] == '@';
        assert(word[i] != '@');
    }
    assert(!is_space(word[0]));
    assert(!is_space(word.last()));
    crate::text::lemma_trimmed_fixed(word);
}

/// `name@<requirement>` asks for a version that the requirement admits: the
/// result carries the requirement that the text after the `@` denotes.
pub proof fn lemma_spec_requirement(name: Seq<char>, token: Seq<char>)
    requires
        !name.contains('@'),
        !is_blank(name),
        !token.contains('@'),
        !is_blank(token),
        !eq_ignoring_ascii_case(trimmed(token), "latest"@),
    ensures
        parsed_spec(name + seq!['@'] + token) == (match requirement_text(trimmed(token)) {
            Some(req) => Ok::<(Seq<char>, VersionSpecView), SpecError>(
                (trimmed(name), VersionSpecView::Requirement(req)),
            ),
            None => Err(SpecError::MalformedVersion),
        }),
{
    lemma_spec_with_version(name, token);
}

/// Reads a crate specification.
///
/// The result is the one that [`parsed_spec`] gives; a name that comes back
/// is a crate name in the sense of [`is_crate_name`].
pub fn parse_spec(spec: &str) -> (r: Result<(String, VersionSpec), SpecError>)
    ensures
        spec_result_is(r, parsed_spec(spec@)),
        r matches Ok((name, _)) ==> is_crate_name(name@),
{
    let chars = chars_of(spec);
    let n = chars.len();
    assert(chars@.subrange(0, n as int) =~= spec@);
    assert(chars@.skip(0) =~= spec@);

    let (whole_from, whole_to) = trim_range(&chars, 0, n);
    if whole_from == whole_to {
        return Err(SpecError::Empty);
    }
    let cut = find_char(&chars, '@', 0);
    assert(chars@.subrange(0, cut as int) =~= spec@.take(cut as int));
    let (name_from, name_to) = trim_range(&chars, 0, cut);
    if name_from == name_to {
        return Err(SpecError::EmptyName);
    }
    proof {
        lemma_parsed_name(spec@);
    }
    let name = String::from_str(spec.substring_char(name_from, name_to));
    if cut == n {
        return Ok((name, VersionSpec::Unspecified));
    }
    let ghost rest = spec@.skip(cut + 1);
    assert(chars@.skip(cut + 1) =~= rest);
    assert(chars@.subrange(cut + 1, n as int) =~= rest);
    let second = find_char(&chars, '@', cut + 1);
    proof {
        lemma_position_of_bounds(rest, '@');
    }
    if second < n {
        return Err(SpecError::TooManySeparators);
    }
    let (token_from, token_to) = trim_range(&chars, cut + 1, n);
    if token_from == token_to {
        return Err(SpecError::EmptyVersion);
    }
    let latest = chars_of("latest");
    if range_eq_ignoring_ascii_case(&chars, token_from, token_to, &latest) {
        return Ok((name, VersionSpec::Latest));
    }
    match VersionReq::parse(spec.substring_char(token_from, token_to)) {
        Some(req) => Ok((name, VersionSpec::Requirement(req))),
        None => Err(SpecError::MalformedVersion),
    }
}

} // verus!
