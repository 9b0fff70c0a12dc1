//! Semantic versions, through the `semver` crate.

use vstd::prelude::*;

verus! {

/// What `semver::Version::parse` reports for a text: nothing when it accepts
/// the text, else the message its error displays.
pub uninterp spec fn semver_parse_error(text: Seq<char>) -> Option<Seq<char>>;

/// `semver::Version::parse` accepts the text.
pub open spec fn semver_valid(text: Seq<char>) -> bool {
    semver_parse_error(text) is None
}

/// For two texts that `semver::Version::parse` accepts: whether the first
/// version is greater than the second in `semver::Version`'s order.
pub uninterp spec fn semver_greater(a: Seq<char>, b: Seq<char>) -> bool;

/// What `semver::VersionReq::parse` reports for a text: nothing when it
/// accepts the text, else the message its error displays.
pub uninterp spec fn semver_req_parse_error(text: Seq<char>) -> Option<Seq<char>>;

/// `semver::VersionReq::parse` accepts the text.
pub open spec fn semver_req_valid(text: Seq<char>) -> bool {
    semver_req_parse_error(text) is None
}

/// For a requirement and a version that both parse: whether
/// `semver::VersionReq::matches` accepts the version.
pub uninterp spec fn semver_req_matches(req: Seq<char>, version: Seq<char>) -> bool;

/// Calls `semver::Version::parse`: on success the parsed version rendered by
/// its `Display` impl, which is the text it was given (the parser keeps the
/// text of every component and refuses leading zeros); on failure the
/// message of the error.
#[verifier::external_body]
pub(crate) fn parse_semver(text: &str) -> (r: Result<String, String>)
    ensures
        r is Ok <==> semver_valid(text@),
        r matches Ok(t) ==> t@ == text@,
        r matches Err(m) ==> semver_parse_error(text@) == Some(m@),
{
    semver::Version::parse(text).map(|version| version.to_string()).map_err(|error| error.to_string())
}

/// Parses both texts with `semver::Version::parse` and compares them with
/// `>`; `None` when either text does not parse. `Version`'s `Ord` is a
/// total order, so equal texts are not greater, a greater pair is not
/// greater the other way round, and a greater pair passes on through any
/// third version that parses: whatever is greater than the first is greater
/// than the second, and the first is greater than whatever is below the
/// second. Distinct texts that parse are distinct versions (the parser
/// keeps every part's text), so one of two such versions is greater.
#[verifier::external_body]
pub(crate) fn semver_newer(candidate: &str, current: &str) -> (r: Option<bool>)
    ensures
        r is Some <==> (semver_valid(candidate@) && semver_valid(current@)),
        r matches Some(g) ==> g == semver_greater(candidate@, current@),
        r matches Some(g) ==> (candidate@ == current@ ==> !g),
        r matches Some(g) ==> (g ==> !semver_greater(current@, candidate@)),
        r matches Some(g) ==> (g ==> forall|c: Seq<char>|
            #![trigger semver_greater(c, candidate@)]
            semver_valid(c) && semver_greater(c, candidate@) ==> semver_greater(c, current@)),
        r matches Some(g) ==> (g ==> forall|c: Seq<char>|
            #![trigger semver_greater(current@, c)]
            semver_valid(c) && semver_greater(current@, c) ==> semver_greater(candidate@, c)),
        r is Some ==> forall|c: Seq<char>|
            #![trigger semver_greater(c, current@)]
            semver_valid(c) && c != current@ ==> semver_greater(c, current@) || semver_greater(current@, c),
{
    match (semver::Version::parse(candidate), semver::Version::parse(current)) {
        (Ok(candidate), Ok(current)) => Some(candidate > current),
        _ => None,
    }
}

/// Calls `semver::VersionReq::parse`; on failure, the message of the error.
#[verifier::external_body]
pub(crate) fn parse_semver_req(text: &str) -> (r: Result<(), String>)
    ensures
        r is Ok <==> semver_req_valid(text@),
        r matches Err(m) ==> semver_req_parse_error(text@) == Some(m@),
{
    semver::VersionReq::parse(text).map(|_| ()).map_err(|error| error.to_string())
}

/// Parses a requirement and a version and evaluates
/// `semver::VersionReq::matches`; `None` when either text does not parse.
#[verifier::external_body]
pub(crate) fn semver_req_accepts(req: &str, version: &str) -> (r: Option<bool>)
    ensures
        r is Some <==> (semver_req_valid(req@) && semver_valid(version@)),
        r matches Some(m) ==> m == semver_req_matches(req@, version@),
{
    match (semver::VersionReq::parse(req), semver::Version::parse(version)) {
        (Ok(req), Ok(version)) => Some(req.matches(&version)),
        _ => None,
    }
}

} // verus!
