//! Choosing a version from what the registry publishes.
//!
//! The request itself is made by the caller: this module says what to ask
//! for ([`registry_request`]) and what the answer means
//! ([`fetch_highest_matching_version`]).

use vstd::prelude::*;
use vstd::string::*;
use crate::version::{is_version_text, requirement_admits, version_precedes, Version, VersionReq};

verus! {

/// One published version of a crate, as the registry lists it.
#[derive(Debug)]
pub struct CrateVersion {
    /// The version number, as text.
    pub num: String,
    /// Whether the version was withdrawn after publication.
    pub yanked: bool,
}

/// Why no version could be chosen.
#[derive(Debug)]
pub enum RegistryError {
    /// The registry could not be reached or its answer could not be read.
    Unavailable { cause: String },
    /// The registry lists no usable version of the crate.
    NoVersionsFound,
    /// None of the usable versions satisfies the requirement.
    NoMatchingVersion,
}

/// The mathematical value of a [`RegistryError`].
pub enum RegistryErrorView {
    Unavailable { cause: Seq<char> },
    NoVersionsFound,
    NoMatchingVersion,
}

impl View for RegistryError {
    type V = RegistryErrorView;

    open spec fn view(&self) -> RegistryErrorView {
        match self {
            RegistryError::Unavailable { cause } => RegistryErrorView::Unavailable {
                cause: cause@,
            },
            RegistryError::NoVersionsFound => RegistryErrorView::NoVersionsFound,
            RegistryError::NoMatchingVersion => RegistryErrorView::NoMatchingVersion,
        }
    }
}

/// The mathematical value of a [`RegistryRequest`].
pub struct RegistryRequestView {
    pub url: Seq<char>,
    pub user_agent: Seq<char>,
    pub timeout_secs: u64,
}

impl View for RegistryRequest {
    type V = RegistryRequestView;

    open spec fn view(&self) -> RegistryRequestView {
        RegistryRequestView {
            url: self.url@,
            user_agent: self.user_agent@,
            timeout_secs: self.timeout_secs,
        }
    }
}

/// The request that lists the published versions of `crate_name`: one `GET`
/// of the crate's entry, in the name of this program, given ten seconds.
pub open spec fn request_for(crate_name: Seq<char>) -> RegistryRequestView {
    RegistryRequestView {
        url: "https://crates.io/api/v1/crates/"@ + crate_name,
        user_agent: "cargox/0.1.0"@,
        timeout_secs: REQUEST_TIMEOUT_SECS,
    }
}

/// What a registry error says. The cause of a failed request is not part
/// of it: it stands in the error, for the caller to print after.
pub open spec fn registry_error_text(e: RegistryError) -> Seq<char> {
    match e {
        RegistryError::Unavailable { .. } => "failed to contact crates.io"@,
        RegistryError::NoVersionsFound => "no published versions found"@,
        RegistryError::NoMatchingVersion => "no published version satisfies the requirement"@,
    }
}

impl RegistryError {
    /// What the error says.
    pub fn message(&self) -> (r: String)
        ensures
            r@ == registry_error_text(*self),
    {
        match self {
            RegistryError::Unavailable { .. } => String::from_str("failed to contact crates.io"),
            RegistryError::NoVersionsFound => String::from_str("no published versions found"),
            RegistryError::NoMatchingVersion => String::from_str(
                "no published version satisfies the requirement",
            ),
        }
    }

    /// The underlying cause, where there is one.
    pub fn cause(&self) -> (r: Option<&String>)
        ensures
            match *self {
                RegistryError::Unavailable { cause } => r matches Some(c) && c@ == cause@,
                _ => r is None,
            },
    {
        match self {
            RegistryError::Unavailable { cause } => Some(cause),
            _ => None,
        }
    }
}

/// What to ask the registry: one `GET` of `url`, sent with `user_agent` and
/// given up after `timeout_secs` seconds.
#[derive(Debug)]
pub struct RegistryRequest {
    pub url: String,
    pub user_agent: String,
    pub timeout_secs: u64,
}

/// Seconds after which a request to the registry is given up.
pub const REQUEST_TIMEOUT_SECS: u64 = 10;

/// The `i`-th entry of `listing` is usable: it was not yanked and its number
/// is a semantic version.
pub open spec fn is_candidate(listing: Seq<CrateVersion>, i: int) -> bool {
    &&& 0 <= i < listing.len()
    &&& !listing[i].yanked
    &&& is_version_text(listing[i].num@)
}

/// The `i`-th entry of `listing` is usable and satisfies `requirement`,
/// where there is one.
pub open spec fn is_match(
    listing: Seq<CrateVersion>,
    requirement: Option<Seq<char>>,
    i: int,
) -> bool {
    &&& is_candidate(listing, i)
    &&& requirement matches Some(req) ==> requirement_admits(req, listing[i].num@)
}

/// `version` is the number of a matching entry and precedes no other
/// matching version.
pub open spec fn is_highest_match(
    listing: Seq<CrateVersion>,
    requirement: Option<Seq<char>>,
    version: Seq<char>,
) -> bool {
    &&& exists|i: int| #[trigger] is_match(listing, requirement, i) && listing[i].num@ == version
    &&& forall|j: int| #[trigger]
        is_match(listing, requirement, j) && listing[j].num@ != version ==> !version_precedes(
            version,
            listing[j].num@,
        )
}

/// The mathematical value of an optional requirement.
pub open spec fn requirement_view(requirement: Option<&VersionReq>) -> Option<Seq<char>> {
    match requirement {
        Some(req) => Some(req@),
        None => None,
    }
}

/// The request that lists the published versions of `crate_name`.
pub fn registry_request(crate_name: &str) -> (r: RegistryRequest)
    ensures
        r@ == request_for(crate_name@),
{
    let mut url = String::from_str("https://crates.io/api/v1/crates/");
    url.append(crate_name);
    RegistryRequest {
        url,
        user_agent: String::from_str("cargox/0.1.0"),
        timeout_secs: REQUEST_TIMEOUT_SECS,
    }
}

/// Chooses the highest published version that satisfies `requirement`.
///
/// `response` is what the request of [`registry_request`] came to: the
/// entries that the registry listed, or the reason why there are none. A
/// failed request is passed on as [`RegistryError::Unavailable`] with its
/// cause. Otherwise yanked entries and entries whose number is no semantic
/// version are set aside; if nothing is left the answer is
/// [`RegistryError::NoVersionsFound`], if nothing that is left satisfies the
/// requirement it is [`RegistryError::NoMatchingVersion`], and else it is
/// the greatest of the versions that do.
pub fn fetch_highest_matching_version(
    requirement: Option<&VersionReq>,
    response: Result<Vec<CrateVersion>, String>,
) -> (r: Result<Version, RegistryError>)
    ensures
        match response {
            Err(cause) => r matches Err(RegistryError::Unavailable { cause: c }) && c@ == cause@,
            Ok(listing) => {
                if forall|i: int| !is_candidate(listing@, i) {
                    r matches Err(RegistryError::NoVersionsFound)
                } else if forall|i: int| !is_match(listing@, requirement_view(requirement), i) {
                    r matches Err(RegistryError::NoMatchingVersion)
                } else {
                    r matches Ok(v) && is_highest_match(
                        listing@,
                        requirement_view(requirement),
                        v@,
                    )
                }
            },
        },
        response matches Ok(listing) && (forall|i: int|
            0 <= i < listing@.len() ==> (#[trigger] listing@[i]).yanked) ==> r matches Err(
            RegistryError::NoVersionsFound,
        ),
{
    let listing = match response {
        Ok(listing) => listing,
        Err(cause) => {
            return Err(RegistryError::Unavailable { cause });
        },
    };
    let ghost wanted = requirement_view(requirement);
    let mut best: Option<Version> = None;
    let mut usable = false;
    let ghost mut usable_at: int = 0;
    let ghost mut best_at: int = 0;
    let mut i: usize = 0;
    while i < listing.len()
        invariant
            i <= listing.len(),
            wanted == requirement_view(requirement),
            usable ==> is_candidate(listing@, usable_at),
            !usable ==> forall|j: int| 0 <= j < i ==> !is_candidate(listing@, j),
            best is None ==> forall|j: int| 0 <= j < i ==> !is_match(listing@, wanted, j),
            best matches Some(b) ==> {
                &&& is_match(listing@, wanted, best_at)
                &&& listing@[best_at].num@ == b@
                &&& forall|j: int|
                    0 <= j < i && #[trigger] is_match(listing@, wanted, j) && listing@[j].num@
                        != b@ ==> !version_precedes(b@, listing@[j].num@)
            },
        decreases listing.len() - i,
    {
        let entry = &listing[i];
        if !entry.yanked {
            if let Some(version) = Version::parse(entry.num.as_str()) {
                usable = true;
                proof {
                    usable_at = i as int;
                }
                let admitted = match requirement {
                    Some(req) => req.matches(&version),
                    None => true,
                };
                if admitted {
                    let higher = match &best {
                        Some(b) => b.precedes(&version),
                        None => true,
                    };
                    if higher {
                        best = Some(version);
                        proof {
                            best_at = i as int;
                        }
                    }
                }
            }
        }
        i += 1;
    }
    match best {
        Some(version) => {
            assert(is_match(listing@, wanted, best_at));
            assert(is_candidate(listing@, best_at));
            Ok(version)
        },
        None => {
            if usable {
                assert(is_candidate(listing@, usable_at));
                Err(RegistryError::NoMatchingVersion)
            } else {
                Err(RegistryError::NoVersionsFound)
            }
        },
    }
}

/// Chooses the highest published version, whatever it is.
pub fn fetch_latest_version(response: Result<Vec<CrateVersion>, String>) -> (r: Result<
    Version,
    RegistryError,
>)
    ensures
        match response {
            Err(cause) => r matches Err(RegistryError::Unavailable { cause: c }) && c@ == cause@,
            Ok(listing) => {
                if forall|i: int| !is_candidate(listing@, i) {
                    r matches Err(RegistryError::NoVersionsFound)
                } else {
                    r matches Ok(v) && is_highest_match(listing@, None, v@)
                }
            },
        },
{
    proof {
        if response is Ok {
            let listing = response->Ok_0;
            assert forall|i: int| is_candidate(listing@, i) implies is_match(
                listing@,
                None,
                i,
            ) by {}
        }
    }
    fetch_highest_matching_version(None, response)
}

} // verus!
