//! Deciding which version of a crate a search inspects.

use crate::error::EgError;
use crate::text::text_eq;
use vstd::prelude::*;

verus! {

/// `semver::Version`, a parsed version, carried as an opaque value.
#[verifier::external_type_specification]
#[verifier::external_body]
pub struct ExVersion(semver::Version);

/// `semver::VersionReq`, a parsed requirement, carried as an opaque value.
#[verifier::external_type_specification]
#[verifier::external_body]
pub struct ExVersionReq(semver::VersionReq);

/// `semver::Error`, why a text did not parse, carried as an opaque value.
#[verifier::external_type_specification]
#[verifier::external_body]
pub struct ExSemverError(semver::Error);

/// Whether `text` is a semantic version: whether `semver::Version::parse`
/// accepts it.
pub uninterp spec fn semver_version(text: Seq<char>) -> bool;

/// Whether `text` is a version requirement: whether
/// `semver::VersionReq::parse` accepts it.
pub uninterp spec fn semver_requirement(text: Seq<char>) -> bool;

/// The text that the semantic version written `text` is displayed as.
pub uninterp spec fn semver_display(text: Seq<char>) -> Seq<char>;

/// Whether the version written `version` satisfies the requirement written
/// `requirement`, as `semver::VersionReq::matches` decides.
pub uninterp spec fn semver_admits(requirement: Seq<char>, version: Seq<char>) -> bool;

/// Whether the version written `a` comes strictly before the version written
/// `b` in the order of `semver::Version`.
pub uninterp spec fn semver_precedes(a: Seq<char>, b: Seq<char>) -> bool;

/// A published version: its text as published and the version parsed from
/// that text (see [`Release::parse`]). Contracts speak of it by its text.
pub struct Release {
    text: String,
    parsed: semver::Version,
}

impl View for Release {
    type V = Seq<char>;

    closed spec fn view(&self) -> Seq<char> {
        self.text@
    }
}

/// A version requirement: its text and the requirement parsed from that text
/// (see [`Requirement::parse`]). Contracts speak of it by its text.
pub struct Requirement {
    text: String,
    parsed: semver::VersionReq,
}

impl View for Requirement {
    type V = Seq<char>;

    closed spec fn view(&self) -> Seq<char> {
        self.text@
    }
}

/// Calls `semver::Version::parse`, and drops the error where it fails.
#[verifier::external_body]
fn semver_parse_version(text: &str) -> (r: Option<semver::Version>)
    ensures
        r is Some <==> semver_version(text@),
{
    semver::Version::parse(text).ok()
}

/// Calls `semver::VersionReq::parse`.
#[verifier::external_body]
fn semver_parse_requirement(text: &str) -> (r: Result<semver::VersionReq, semver::Error>)
    ensures
        r is Ok <==> semver_requirement(text@),
{
    semver::VersionReq::parse(text)
}

/// Calls `semver::Error`'s `to_string`. Nothing is claimed of the text.
#[verifier::external_body]
fn semver_error_text(error: &semver::Error) -> (text: String) {
    error.to_string()
}

/// Calls `semver::Version`'s `to_string`.
#[verifier::external_body]
fn semver_version_text(release: &Release) -> (text: String)
    ensures
        text@ == semver_display(release@),
{
    release.parsed.to_string()
}

/// Calls `semver::VersionReq::matches`.
#[verifier::external_body]
fn semver_matches(requirement: &Requirement, release: &Release) -> (r: bool)
    ensures
        r == semver_admits(requirement@, release@),
{
    requirement.parsed.matches(&release.parsed)
}

/// Compares two versions with `<`, which `semver::Version` derives from its
/// fields in the order major, minor, patch, pre-release, build. The order is
/// strict and transitive: of two versions at most one comes before the other,
/// and a version that comes after the greater of two comes after the lesser
/// one too.
#[verifier::external_body]
fn semver_less(a: &Release, b: &Release) -> (r: bool)
    ensures
        r == semver_precedes(a@, b@),
        r ==> !semver_precedes(b@, a@),
        r ==> forall|c: Seq<char>|
            semver_version(c) && #[trigger] semver_precedes(b@, c) ==> semver_precedes(a@, c),
{
    a.parsed < b.parsed
}

impl Release {
    /// Reads a published version. Texts that are no semantic version give
    /// `None`.
    pub fn parse(text: &str) -> (r: Option<Release>)
        ensures
            r is Some <==> semver_version(text@),
            r matches Some(release) ==> release@ == text@,
    {
        match semver_parse_version(text) {
            Some(parsed) => Some(Release { text: text.to_owned(), parsed }),
            None => None,
        }
    }

    /// The version as it is displayed.
    pub fn display(&self) -> (text: String)
        ensures
            text@ == semver_display(self@),
    {
        semver_version_text(self)
    }

    /// Whether this version comes strictly before `other`.
    pub fn precedes(&self, other: &Release) -> (r: bool)
        ensures
            r == semver_precedes(self@, other@),
            r ==> !semver_precedes(other@, self@),
            r ==> forall|c: Seq<char>|
                semver_version(c) && #[trigger] semver_precedes(other@, c) ==> semver_precedes(
                    self@,
                    c,
                ),
    {
        semver_less(self, other)
    }
}

impl Requirement {
    /// Reads a version requirement. A malformed one gives
    /// `VersionParseError`.
    pub fn parse(text: &str) -> (r: Result<Requirement, EgError>)
        ensures
            r is Ok <==> semver_requirement(text@),
            r matches Ok(requirement) ==> requirement@ == text@,
            r matches Err(e) ==> e is VersionParseError,
    {
        match semver_parse_requirement(text) {
            Ok(parsed) => Ok(Requirement { text: text.to_owned(), parsed }),
            Err(error) => Err(EgError::VersionParseError(semver_error_text(&error))),
        }
    }

    /// Whether `release` satisfies this requirement.
    pub fn admits(&self, release: &Release) -> (r: bool)
        ensures
            r == semver_admits(self@, release@),
    {
        semver_matches(self, release)
    }
}

/// A package of the current project's resolved dependencies.
#[derive(Debug, Clone, PartialEq, Eq)]
pub struct PackageEntry {
    pub name: String,
    pub version: String,
}

/// The published version `available[m]` is a semantic version that satisfies
/// `requirement`.
pub open spec fn is_candidate(available: Seq<String>, requirement: Seq<char>, m: int) -> bool {
    &&& 0 <= m < available.len()
    &&& semver_version(available[m]@)
    &&& semver_admits(requirement, available[m]@)
}

/// `available[m]` is a candidate, and no other candidate comes after it.
pub open spec fn is_latest_candidate(
    available: Seq<String>,
    requirement: Seq<char>,
    m: int,
) -> bool {
    &&& is_candidate(available, requirement, m)
    &&& forall|j: int|
        j != m && #[trigger] is_candidate(available, requirement, j) ==> !semver_precedes(
            available[m]@,
            available[j]@,
        )
}

/// `r` is what selecting from `available` under `requirement` gives: the
/// display of a latest candidate, or `NoMatchingVersion` naming the crate and
/// the requirement where there is no candidate.
pub open spec fn selects(
    r: Result<String, EgError>,
    crate_name: Seq<char>,
    requirement: Seq<char>,
    available: Seq<String>,
) -> bool {
    match r {
        Ok(version) => exists|m: int|
            #[trigger] is_latest_candidate(available, requirement, m) && version@
                == semver_display(available[m]@),
        Err(EgError::NoMatchingVersion { crate_name: c, constraint: q }) => {
            &&& c@ == crate_name
            &&& q@ == requirement
            &&& forall|j: int| !is_candidate(available, requirement, j)
        },
        Err(_) => false,
    }
}

/// The version pinned for `crate_name` among the first `n` packages: that of
/// the first package of this name.
pub open spec fn pinned_version(packages: Seq<PackageEntry>, crate_name: Seq<char>, n: int) -> Option<
    Seq<char>,
>
    decreases n,
{
    if n <= 0 {
        None
    } else {
        match pinned_version(packages, crate_name, n - 1) {
            Some(version) => Some(version),
            None => if packages[n - 1].name@ == crate_name {
                Some(packages[n - 1].version@)
            } else {
                None
            },
        }
    }
}

/// What the resolver asks of its collaborators.
#[derive(Debug, Clone, Copy, PartialEq, Eq, Structural)]
pub enum VersionQuery {
    /// Every version of the crate that the registry has published.
    PublishedVersions,
    /// The resolved dependencies of the current project.
    ProjectSnapshot,
    /// The greatest version of the crate that the registry reports.
    LatestVersion,
}

/// What a collaborator answered.
#[derive(Debug, Clone, PartialEq, Eq)]
pub enum VersionAnswer {
    /// The published versions, as the registry writes them.
    Published(Vec<String>),
    /// The packages of the current project.
    Snapshot(Vec<PackageEntry>),
    /// The greatest published version.
    Latest(String),
    /// The query could not be answered, and why.
    Unavailable(VersionQuery, String),
}

/// What the resolver does next.
#[derive(Debug, Clone, PartialEq, Eq)]
pub enum Resolution {
    /// Put this query to its collaborator and come back with the answer.
    Ask(VersionQuery),
    /// The version to search.
    Resolved(String),
    /// No version can be had.
    Failed(EgError),
}

/// `r` is how a resolution begins: with a constraint, by asking for the
/// published versions, unless the constraint is malformed; without one, by
/// asking for the project's dependencies.
pub open spec fn begins(r: Resolution, version_spec: Option<&str>) -> bool {
    match version_spec {
        Some(constraint) => if semver_requirement(constraint@) {
            r == Resolution::Ask(VersionQuery::PublishedVersions)
        } else {
            r matches Resolution::Failed(EgError::VersionParseError(_))
        },
        None => r == Resolution::Ask(VersionQuery::ProjectSnapshot),
    }
}

/// `r` carries the outcome `outcome` of a selection.
pub open spec fn carries(r: Resolution, outcome: Result<String, EgError>) -> bool {
    match r {
        Resolution::Resolved(version) => outcome == Ok::<String, EgError>(version),
        Resolution::Failed(e) => outcome == Err::<String, EgError>(e),
        Resolution::Ask(_) => false,
    }
}

/// `r` is the step that follows the answer `heard` (none yet at the start)
/// in resolving `crate_name` under `version_spec`. An answer to a query that
/// this resolution does not put is passed over, and the resolution begins
/// anew.
pub open spec fn resolution_step(
    r: Resolution,
    crate_name: Seq<char>,
    version_spec: Option<&str>,
    heard: Option<&VersionAnswer>,
) -> bool {
    match (version_spec, heard) {
        (Some(constraint), Some(VersionAnswer::Published(available))) => if semver_requirement(
            constraint@,
        ) {
            exists|outcome: Result<String, EgError>|
                #[trigger] carries(r, outcome) && selects(
                    outcome,
                    crate_name,
                    constraint@,
                    available@,
                )
        } else {
            r matches Resolution::Failed(EgError::VersionParseError(_))
        },
        (Some(_), Some(VersionAnswer::Unavailable(VersionQuery::PublishedVersions, why))) => r matches Resolution::Failed(
            EgError::Transport(said),
        ) && said@ == why@,
        (None, Some(VersionAnswer::Snapshot(packages))) => match pinned_version(
            packages@,
            crate_name,
            packages.len() as int,
        ) {
            Some(version) => r matches Resolution::Resolved(found) && found@ == version,
            None => r == Resolution::Ask(VersionQuery::LatestVersion),
        },
        (None, Some(VersionAnswer::Unavailable(VersionQuery::ProjectSnapshot, _))) => r
            == Resolution::Ask(VersionQuery::LatestVersion),
        (None, Some(VersionAnswer::Latest(version))) => r matches Resolution::Resolved(found)
            && found@ == version@,
        (None, Some(VersionAnswer::Unavailable(VersionQuery::LatestVersion, _))) => r matches Resolution::Failed(
            EgError::PackageNotFound(name),
        ) && name@ == crate_name,
        _ => begins(r, version_spec),
    }
}

/// Without a constraint, a project that pins the crate decides the version:
/// the resolution begins by asking for the project's dependencies, and the
/// answer that pins the crate ends it with the pinned version. The registry
/// is not asked.
pub proof fn lemma_project_pin_decides(
    first: Resolution,
    second: Resolution,
    crate_name: Seq<char>,
    packages: Vec<PackageEntry>,
    pinned: Seq<char>,
)
    requires
        resolution_step(first, crate_name, None, None),
        resolution_step(second, crate_name, None, Some(&VersionAnswer::Snapshot(packages))),
        pinned_version(packages@, crate_name, packages.len() as int) == Some(pinned),
    ensures
        first == Resolution::Ask(VersionQuery::ProjectSnapshot),
        second matches Resolution::Resolved(version) && version@ == pinned,
{
}

/// Without a constraint and without a pin in the project, the resolution
/// asks the registry for its greatest version, and that version is the
/// answer.
pub proof fn lemma_registry_maximum_decides(
    second: Resolution,
    third: Resolution,
    crate_name: Seq<char>,
    packages: Vec<PackageEntry>,
    latest: String,
)
    requires
        resolution_step(second, crate_name, None, Some(&VersionAnswer::Snapshot(packages))),
        pinned_version(packages@, crate_name, packages.len() as int) is None,
        resolution_step(third, crate_name, None, Some(&VersionAnswer::Latest(latest))),
    ensures
        second == Resolution::Ask(VersionQuery::LatestVersion),
        third matches Resolution::Resolved(version) && version@ == latest@,
{
}

/// With a well-formed constraint, the version is a latest candidate among
/// the published versions, whatever the project pins: the resolution begins
/// by asking for the published versions, and their answer ends it.
pub proof fn lemma_constraint_decides(
    first: Resolution,
    second: Resolution,
    crate_name: Seq<char>,
    constraint: &str,
    available: Vec<String>,
)
    requires
        semver_requirement(constraint@),
        resolution_step(first, crate_name, Some(constraint), None),
        resolution_step(
            second,
            crate_name,
            Some(constraint),
            Some(&VersionAnswer::Published(available)),
        ),
    ensures
        first == Resolution::Ask(VersionQuery::PublishedVersions),
        match second {
            Resolution::Resolved(version) => exists|m: int|
                #[trigger] is_latest_candidate(available@, constraint@, m) && version@
                    == semver_display(available@[m]@),
            Resolution::Failed(e) => e is NoMatchingVersion && forall|j: int|
                !is_candidate(available@, constraint@, j),
            Resolution::Ask(_) => false,
        },
{
    let outcome = choose|outcome: Result<String, EgError>|
        #[trigger] carries(second, outcome) && selects(
            outcome,
            crate_name,
            constraint@,
            available@,
        );
    assert(carries(second, outcome));
}

/// Decides the version to search.
pub struct VersionResolver;

impl VersionResolver {
    pub fn new() -> (r: Self) {
        VersionResolver
    }

    /// How a resolution under `version_spec` begins.
    pub fn begin(&self, version_spec: Option<&str>) -> (r: Resolution)
        ensures
            begins(r, version_spec),
    {
        match version_spec {
            Some(constraint) => match Requirement::parse(constraint) {
                Ok(_) => Resolution::Ask(VersionQuery::PublishedVersions),
                Err(e) => Resolution::Failed(e),
            },
            None => Resolution::Ask(VersionQuery::ProjectSnapshot),
        }
    }

    /// The next step in resolving the version of `crate_name` to search,
    /// after the answer `heard` (none yet at the start).
    ///
    /// With a constraint, the version is the latest published one that
    /// satisfies it. Without one, it is the version that the current project
    /// pins, and where the project pins none or cannot be read, the greatest
    /// version that the registry reports. Only where that last query fails is
    /// the crate `PackageNotFound`.
    pub fn resolve_version(
        &self,
        crate_name: &str,
        version_spec: Option<&str>,
        heard: Option<&VersionAnswer>,
    ) -> (r: Resolution)
        ensures
            resolution_step(r, crate_name@, version_spec, heard),
    {
        match (version_spec, heard) {
            (Some(constraint), Some(VersionAnswer::Published(available))) => {
                let outcome = self.resolve_version_constraint(crate_name, constraint, available);
                match outcome {
                    Ok(version) => {
                        let r = Resolution::Resolved(version);
                        assert(carries(r, outcome));
                        r
                    },
                    Err(e) => {
                        let r = Resolution::Failed(e);
                        assert(carries(r, outcome));
                        r
                    },
                }
            },
            (Some(_), Some(VersionAnswer::Unavailable(VersionQuery::PublishedVersions, why))) => {
                Resolution::Failed(EgError::Transport(why.clone()))
            },
            (None, Some(VersionAnswer::Snapshot(packages))) => {
                match self.find_in_current_project(crate_name, packages) {
                    Some(version) => Resolution::Resolved(version),
                    None => Resolution::Ask(VersionQuery::LatestVersion),
                }
            },
            (None, Some(VersionAnswer::Unavailable(VersionQuery::ProjectSnapshot, _))) => {
                Resolution::Ask(VersionQuery::LatestVersion)
            },
            (None, Some(VersionAnswer::Latest(version))) => Resolution::Resolved(version.clone()),
            (None, Some(VersionAnswer::Unavailable(VersionQuery::LatestVersion, _))) => {
                Resolution::Failed(EgError::PackageNotFound(crate_name.to_owned()))
            },
            _ => self.begin(version_spec),
        }
    }

    /// The latest of the versions in `available` that satisfy `requirement`.
    /// Texts in `available` that are no semantic version are passed over.
    pub fn select_latest(
        &self,
        crate_name: &str,
        requirement: &Requirement,
        available: &Vec<String>,
    ) -> (r: Result<String, EgError>)
        ensures
            selects(r, crate_name@, requirement@, available@),
    {
        let mut best: Option<(usize, Release)> = None;
        let mut i: usize = 0;
        while i < available.len()
            invariant
                i <= available.len(),
                match best {
                    Some((m, release)) => {
                        &&& m < i
                        &&& release@ == available@[m as int]@
                        &&& is_candidate(available@, requirement@, m as int)
                        &&& forall|j: int|
                            0 <= j < i && j != m && #[trigger] is_candidate(
                                available@,
                                requirement@,
                                j,
                            ) ==> !semver_precedes(available@[m as int]@, available@[j]@)
                    },
                    None => forall|j: int|
                        0 <= j < i ==> !#[trigger] is_candidate(available@, requirement@, j),
                },
            decreases available.len() - i,
        {
            let ghost before = best;
            match Release::parse(available[i].as_str()) {
                Some(release) => {
                    assert(release@ == available@[i as int]@);
                    if requirement.admits(&release) {
                        assert(is_candidate(available@, requirement@, i as int));
                        let newer = match &best {
                            Some((_, current)) => current.precedes(&release),
                            None => true,
                        };
                        if newer {
                            best = Some((i, release));
                            assert forall|j: int|
                                0 <= j < i + 1 && j != i && #[trigger] is_candidate(
                                    available@,
                                    requirement@,
                                    j,
                                ) implies !semver_precedes(available@[i as int]@, available@[j]@) by {
                                if let Some((m, current)) = before {
                                    if semver_precedes(available@[i as int]@, available@[j]@) {
                                        assert(semver_precedes(current@, available@[j]@));
                                    }
                                }
                            }
                        }
                    } else {
                        assert(!is_candidate(available@, requirement@, i as int));
                    }
                },
                None => {
                    assert(!is_candidate(available@, requirement@, i as int));
                },
            }
            i += 1;
        }
        match best {
            Some((m, release)) => {
                assert(is_latest_candidate(available@, requirement@, m as int));
                Ok(release.display())
            },
            None => Err(
                EgError::NoMatchingVersion {
                    crate_name: crate_name.to_owned(),
                    constraint: requirement.text.clone(),
                },
            ),
        }
    }

    /// The latest published version that satisfies `constraint`. A malformed
    /// constraint is `VersionParseError`, whatever is published.
    pub fn resolve_version_constraint(
        &self,
        crate_name: &str,
        constraint: &str,
        available: &Vec<String>,
    ) -> (r: Result<String, EgError>)
        ensures
            !semver_requirement(constraint@) ==> r matches Err(EgError::VersionParseError(_)),
            semver_requirement(constraint@) ==> selects(r, crate_name@, constraint@, available@),
    {
        match Requirement::parse(constraint) {
            Ok(requirement) => self.select_latest(crate_name, &requirement, available),
            Err(e) => Err(e),
        }
    }

    /// The version that the current project pins for `crate_name`: that of the
    /// first of `packages` with this name, if there is one.
    pub fn find_in_current_project(&self, crate_name: &str, packages: &Vec<PackageEntry>) -> (r:
        Option<String>)
        ensures
            match pinned_version(packages@, crate_name@, packages.len() as int) {
                Some(version) => r matches Some(found) && found@ == version,
                None => r is None,
            },
    {
        let mut i: usize = 0;
        while i < packages.len()
            invariant
                i <= packages.len(),
                pinned_version(packages@, crate_name@, i as int) is None,
            decreases packages.len() - i,
        {
            if text_eq(packages[i].name.as_str(), crate_name) {
                proof {
                    lemma_pinned_persists(packages@, crate_name@, i + 1, packages.len() as int);
                }
                return Some(packages[i].version.clone());
            }
            i += 1;
        }
        None
    }
}

/// A version pinned among the first `n` packages is the one pinned among any
/// more of them.
pub proof fn lemma_pinned_persists(
    packages: Seq<PackageEntry>,
    crate_name: Seq<char>,
    n: int,
    m: int,
)
    requires
        n <= m,
        pinned_version(packages, crate_name, n) is Some,
    ensures
        pinned_version(packages, crate_name, m) == pinned_version(packages, crate_name, n),
    decreases m - n,
{
    if n < m {
        lemma_pinned_persists(packages, crate_name, n, m - 1);
    }
}

} // verus!
