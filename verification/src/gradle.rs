//! Locating a Gradle installation: the executable's name and the choice
//! among the distributions that the Gradle wrapper has downloaded.
use vstd::prelude::*;
use std::rc::Rc;
use crate::cli::Cli;
use crate::path::{path_push_spec, push_self};
use crate::pattern::{first_captures, found_texts, regex_compiles, regex_first_captures};
use crate::release::{group_at, opt_view, string_views};
use crate::semver::{
    SemVer, SemVerError, VersionOrder, lemma_version_order_antisymmetric,
    lemma_version_order_transitive, parse_version_spec, reversed, version_order,
};
use crate::text::{IntErrorKind, chars_of, string_of};

verus! {

/// Names a Gradle distribution directory such as `gradle-7.4.2-bin` and
/// captures its version (group 1, `ver`).
pub const GRADLE_DIST_PATTERN: &'static str = r"gradle-(?P<ver>[\d.]+)-(?:.+-)?(?:bin|all)";

/// The operating system family the project is generated on.
#[derive(Debug, Clone, Copy, PartialEq, Eq, Structural)]
pub enum Platform {
    Windows,
    Unix,
}

/// Why no Gradle distribution could be chosen.
#[derive(Debug, Clone, Copy, PartialEq, Eq, Structural)]
pub enum GradleError {
    /// The distribution name pattern does not compile.
    InvalidPattern,
    /// A distribution's version is not a version.
    InvalidVersion(SemVerError),
}

/// A Gradle executable to run.
pub struct Gradle {
    cli: Rc<Cli>,
    /// The executable: a path, or `gradle` to run the one on the `PATH`.
    pub path: String,
}

/// The name of the Gradle executable on `platform`.
pub open spec fn exec_name_spec(platform: Platform) -> Seq<char> {
    match platform {
        Platform::Windows => "gradle.bat"@,
        Platform::Unix => "gradle"@,
    }
}

impl Gradle {
    /// The Gradle executable at `path`, for the project that `cli` describes.
    pub fn at(cli: Rc<Cli>, path: String) -> (g: Gradle)
        ensures
            g.executable() == path,
            g.options() == cli,
    {
        Gradle { cli, path }
    }

    /// The executable's path.
    pub closed spec fn executable(&self) -> String {
        self.path
    }

    /// The options of the project this Gradle is for.
    pub closed spec fn options(&self) -> Rc<Cli> {
        self.cli
    }

    /// The name of the Gradle executable in a distribution's `bin` directory.
    pub fn gradle_exec_name(platform: Platform) -> (r: &'static str)
        ensures
            r@ == exec_name_spec(platform),
    {
        match platform {
            Platform::Windows => "gradle.bat",
            Platform::Unix => "gradle",
        }
    }

    /// The path of the Gradle executable in the distribution directory `dist`
    /// on `platform`: the directory joined with the executable's name.
    pub fn dist_binary(dist: &str, platform: Platform) -> (r: String)
        ensures
            r@ == path_push_spec(dist@, exec_name_spec(platform), platform),
    {
        let mut path = string_of(&chars_of(dist));
        push_self(&mut path, Gradle::gradle_exec_name(platform), platform)
    }
}

/// The version text that a match of `GRADLE_DIST_PATTERN` captures.
pub open spec fn dist_version_spec(found: Option<Seq<Option<Seq<char>>>>) -> Option<Seq<char>> {
    match found {
        None => None,
        Some(g) => group_at(g, 1),
    }
}

/// The version text that a match of `GRADLE_DIST_PATTERN` captures.
pub fn dist_version_from_match(found: &Option<Vec<Option<String>>>) -> (r: Option<String>)
    ensures
        opt_view(r) == dist_version_spec(found_texts(*found)),
{
    match found {
        None => None,
        Some(g) => {
            if 1 < g.len() {
                match &g[1] {
                    Some(v) => Some(v.clone()),
                    None => None,
                }
            } else {
                None
            }
        },
    }
}

/// The version text in a distribution directory name, if the name is one.
pub fn dist_version(name: &str) -> (r: Result<Option<String>, GradleError>)
    ensures
        match r {
            Ok(v) => regex_compiles(GRADLE_DIST_PATTERN@) && opt_view(v) == dist_version_spec(
                regex_first_captures(GRADLE_DIST_PATTERN@, name@),
            ),
            Err(e) => !regex_compiles(GRADLE_DIST_PATTERN@) && e == GradleError::InvalidPattern,
        },
{
    match first_captures(GRADLE_DIST_PATTERN, name) {
        Err(_) => Err(GradleError::InvalidPattern),
        Ok(found) => Ok(dist_version_from_match(&found)),
    }
}

/// Scanning candidate versions in order: the first one that is not a version
/// fails the choice; otherwise the choice is the last of the greatest
/// versions (what a stable sort puts last), with its components.
pub open spec fn newest_dist(c: Seq<Option<Seq<char>>>) -> Result<Option<(int, Seq<u16>)>, IntErrorKind>
    decreases c.len(),
{
    if c.len() == 0 {
        Ok(None)
    } else {
        match newest_dist(c.drop_last()) {
            Err(e) => Err(e),
            Ok(best) => match c.last() {
                None => Ok(best),
                Some(t) => match parse_version_spec(t) {
                    Err(e) => Err(e),
                    Ok(v) => match best {
                        None => Ok(Some((c.len() - 1, v))),
                        Some((j, bv)) => if version_order(v, bv) != VersionOrder::Less {
                            Ok(Some((c.len() - 1, v)))
                        } else {
                            Ok(best)
                        },
                    },
                },
            },
        }
    }
}

/// Where the chosen candidate stands.
pub open spec fn newest_dist_index(c: Seq<Option<Seq<char>>>) -> Result<Option<int>, SemVerError> {
    match newest_dist(c) {
        Err(k) => Err(SemVerError { kind: k }),
        Ok(None) => Ok(None),
        Ok(Some((j, _))) => Ok(Some(j)),
    }
}

/// The chosen candidate is a version, none is greater and every later one is
/// smaller; there is none exactly when no candidate is present; the choice
/// fails with the error of the first candidate that is not a version.
pub proof fn lemma_newest_dist(c: Seq<Option<Seq<char>>>)
    ensures
        newest_dist(c) matches Ok(Some((j, v))) ==> {
            &&& 0 <= j < c.len()
            &&& c[j] is Some
            &&& parse_version_spec(c[j]->0) == Ok::<Seq<u16>, IntErrorKind>(v)
            &&& forall|k: int|
                0 <= k < c.len() && c[k] is Some ==> parse_version_spec(c[k]->0) is Ok
                    && version_order(parse_version_spec(c[k]->0)->Ok_0, v) != VersionOrder::Greater
            &&& forall|k: int|
                j < k < c.len() && c[k] is Some ==> version_order(
                    parse_version_spec(c[k]->0)->Ok_0,
                    v,
                ) == VersionOrder::Less
        },
        newest_dist(c) matches Ok(None) ==> forall|k: int| 0 <= k < c.len() ==> c[k] is None,
        newest_dist(c) matches Ok(_) ==> forall|k: int|
            0 <= k < c.len() && c[k] is Some ==> parse_version_spec(c[k]->0) is Ok,
        newest_dist(c) matches Err(e) ==> exists|k: int|
            0 <= k < c.len() && c[k] is Some && parse_version_spec(c[k]->0) == Err::<
                Seq<u16>,
                IntErrorKind,
            >(e),
    decreases c.len(),
{
    if c.len() > 0 {
        let p = c.drop_last();
        lemma_newest_dist(p);
        assert forall|k: int| 0 <= k < p.len() implies p[k] == c[k] by {}
        let n = c.len() - 1;
        match newest_dist(p) {
            Err(e) => {
                let k = choose|k: int|
                    0 <= k < p.len() && p[k] is Some && parse_version_spec(p[k]->0) == Err::<
                        Seq<u16>,
                        IntErrorKind,
                    >(e);
                assert(c[k] == p[k]);
            },
            Ok(best) => match c.last() {
                None => {},
                Some(t) => match parse_version_spec(t) {
                    Err(e) => {
                        assert(c[n] == Some(t));
                    },
                    Ok(v) => match best {
                        None => {
                            assert forall|k: int|
                                0 <= k < c.len() && c[k] is Some implies version_order(
                                parse_version_spec(c[k]->0)->Ok_0,
                                v,
                            ) != VersionOrder::Greater by {
                                assert(k == n);
                                crate::semver::lemma_version_order_reflexive(v);
                            }
                        },
                        Some((j, bv)) => {
                            if version_order(v, bv) != VersionOrder::Less {
                                lemma_version_order_antisymmetric(v, bv);
                                assert(version_order(bv, v) == reversed(version_order(v, bv)));
                                assert forall|k: int|
                                    0 <= k < c.len() && c[k] is Some implies version_order(
                                    parse_version_spec(c[k]->0)->Ok_0,
                                    v,
                                ) != VersionOrder::Greater by {
                                    if k < n {
                                        assert(p[k] == c[k]);
                                        lemma_version_order_transitive(
                                            parse_version_spec(c[k]->0)->Ok_0,
                                            bv,
                                            v,
                                        );
                                    } else {
                                        crate::semver::lemma_version_order_reflexive(v);
                                    }
                                }
                            } else {
                                assert forall|k: int|
                                    j < k < c.len() && c[k] is Some implies version_order(
                                    parse_version_spec(c[k]->0)->Ok_0,
                                    bv,
                                ) == VersionOrder::Less by {
                                    if k < n {
                                        assert(p[k] == c[k]);
                                    }
                                }
                            }
                        },
                    },
                },
            },
        }
    }
}

/// Once a prefix of the candidates fails, all of them fail alike.
proof fn lemma_newest_dist_failed_prefix(c: Seq<Option<Seq<char>>>, i: int)
    requires
        0 <= i <= c.len(),
        newest_dist(c.take(i)) is Err,
    ensures
        newest_dist(c) == newest_dist(c.take(i)),
    decreases c.len(),
{
    if c.len() == i {
        assert(c.take(i) =~= c);
    } else {
        assert(c.drop_last().take(i) =~= c.take(i));
        lemma_newest_dist_failed_prefix(c.drop_last(), i);
    }
}

/// Chooses among candidate version texts, in order: fails on the first that is
/// not a version, else picks the last of the greatest (`None` if there is none).
pub fn select_from_versions(candidates: &Vec<Option<String>>) -> (r: Result<Option<usize>, SemVerError>)
    ensures
        match r {
            Ok(Some(j)) => newest_dist_index(candidates@.map_values(|o: Option<String>| opt_view(o)))
                == Ok::<Option<int>, SemVerError>(Some(j as int)),
            Ok(None) => newest_dist_index(candidates@.map_values(|o: Option<String>| opt_view(o)))
                == Ok::<Option<int>, SemVerError>(None),
            Err(e) => newest_dist_index(candidates@.map_values(|o: Option<String>| opt_view(o)))
                == Err::<Option<int>, SemVerError>(e),
        },
{
    let ghost c = candidates@.map_values(|o: Option<String>| opt_view(o));
    let mut best: Option<(usize, SemVer)> = None;
    let mut i: usize = 0;
    while i < candidates.len()
        invariant
            i <= candidates.len(),
            c == candidates@.map_values(|o: Option<String>| opt_view(o)),
            newest_dist(c.take(i as int)) is Ok,
            match best {
                None => newest_dist(c.take(i as int)) == Ok::<
                    Option<(int, Seq<u16>)>,
                    IntErrorKind,
                >(None),
                Some((j, v)) => newest_dist(c.take(i as int)) == Ok::<
                    Option<(int, Seq<u16>)>,
                    IntErrorKind,
                >(Some((j as int, v@))) && j < i && v@.len() > 0,
            },
        decreases candidates.len() - i,
    {
        let ghost prefix = c.take(i + 1);
        assert(prefix.drop_last() =~= c.take(i as int));
        assert(prefix.last() == opt_view(candidates@[i as int]));
        match &candidates[i] {
            None => {},
            Some(text) => {
                match SemVer::try_from(text) {
                    Err(e) => {
                        proof {
                            lemma_newest_dist_failed_prefix(c, i + 1);
                        }
                        return Err(e);
                    },
                    Ok(v) => {
                        let replace = match &best {
                            None => true,
                            Some((_, bv)) => match v.compare(bv) {
                                Some(VersionOrder::Less) => false,
                                _ => true,
                            },
                        };
                        if replace {
                            best = Some((i, v));
                        }
                    },
                }
            },
        }
        i += 1;
    }
    assert(c.take(candidates.len() as int) =~= c);
    match best {
        None => Ok(None),
        Some((j, _)) => Ok(Some(j)),
    }
}

/// The version texts that the distribution directory names `names` carry,
/// one per name (`None` where the name is not a distribution's).
pub open spec fn dist_candidates(names: Seq<Seq<char>>) -> Seq<Option<Seq<char>>> {
    names.map_values(
        |n: Seq<char>| dist_version_spec(regex_first_captures(GRADLE_DIST_PATTERN@, n)),
    )
}

/// Chooses among the directories that the Gradle wrapper has downloaded
/// distributions into, given their names in directory order: the one with the
/// greatest version, the last such one on a tie; `None` when no name is a
/// distribution's. Fails when the pattern does not compile (with at least one
/// name) or a distribution's version is not a version.
pub fn select_wrapper_dist(names: &Vec<String>) -> (r: Result<Option<usize>, GradleError>)
    ensures
        names.len() > 0 && !regex_compiles(GRADLE_DIST_PATTERN@) ==> r == Err::<
            Option<usize>,
            GradleError,
        >(GradleError::InvalidPattern),
        names.len() == 0 || regex_compiles(GRADLE_DIST_PATTERN@) ==> match r {
            Ok(Some(j)) => newest_dist_index(dist_candidates(string_views(names@))) == Ok::<
                Option<int>,
                SemVerError,
            >(Some(j as int)),
            Ok(None) => newest_dist_index(dist_candidates(string_views(names@))) == Ok::<
                Option<int>,
                SemVerError,
            >(None),
            Err(GradleError::InvalidVersion(e)) => newest_dist_index(
                dist_candidates(string_views(names@)),
            ) == Err::<Option<int>, SemVerError>(e),
            Err(GradleError::InvalidPattern) => false,
        },
{
    let mut candidates: Vec<Option<String>> = Vec::new();
    let mut i: usize = 0;
    while i < names.len()
        invariant
            i <= names.len(),
            i > 0 ==> regex_compiles(GRADLE_DIST_PATTERN@),
            candidates@.map_values(|o: Option<String>| opt_view(o)) == dist_candidates(
                string_views(names@),
            ).take(i as int),
        decreases names.len() - i,
    {
        match dist_version(&names[i]) {
            Err(e) => {
                return Err(e);
            },
            Ok(v) => {
                let ghost before = candidates@;
                candidates.push(v);
                assert(string_views(names@)[i as int] == names@[i as int]@);
                assert(candidates@.map_values(|o: Option<String>| opt_view(o)) =~= before.map_values(
                    |o: Option<String>| opt_view(o),
                ).push(opt_view(v)));
                assert(candidates@.map_values(|o: Option<String>| opt_view(o)) =~= dist_candidates(
                    string_views(names@),
                ).take(i + 1));
            },
        }
        i += 1;
    }
    assert(dist_candidates(string_views(names@)).take(names.len() as int) =~= dist_candidates(
        string_views(names@),
    ));
    match select_from_versions(&candidates) {
        Err(e) => Err(GradleError::InvalidVersion(e)),
        Ok(j) => Ok(j),
    }
}

/// What the search for a Gradle executable has just learnt.
pub enum GradleEvent {
    /// The search begins.
    Started,
    /// The given distribution directory was inspected: whether it is a
    /// directory, and whether the executable's path in it is a file.
    DistInspected { is_dir: bool, binary_is_file: bool },
    /// `gradle --no-daemon -v` was run: its exit code, `None` when it could
    /// not be run or waited for, or ended by a signal.
    VersionQueried { exit_code: Option<i32> },
    /// The wrapper's distribution directory was listed: the names of its
    /// entries, `None` when it is not a directory.
    WrapperListed { names: Option<Vec<String>> },
}

/// Why the search for a Gradle executable failed.
#[derive(Debug, Clone, Copy, PartialEq, Eq, Structural)]
pub enum GradleFailure {
    /// The given distribution directory is not a directory.
    InvalidDistDir,
    /// No executable was found.
    NotFound,
    /// The wrapper's distributions could not be told apart.
    Dist(GradleError),
}

/// What the search for a Gradle executable does next.
#[derive(Debug, PartialEq, Eq)]
pub enum GradleAction {
    /// Inspect the given distribution directory `dir`: is it a directory,
    /// and is the executable's path `binary` in it a file?
    InspectDist { dir: String, binary: String },
    /// Run `gradle --no-daemon -v`.
    QueryVersion,
    /// List the wrapper's distribution directory.
    ListWrapper,
    /// Use the executable at this path.
    Use(String),
    /// Use the wrapper distribution listed at this position.
    UseWrapperDist(usize),
    /// Give up.
    Fail(GradleFailure),
}

impl Gradle {
    /// The next step of the search for a Gradle executable, given the
    /// distribution directory asked for, the platform and what was just
    /// learnt: the given distribution first (a non-directory is refused; the
    /// executable in it, the directory joined with the executable's name as
    /// paths are on `platform`, is used when it is a file), then the `gradle` on the `PATH` if it runs
    /// successfully, then the greatest distribution the wrapper has downloaded.
    pub fn locate_step(gradle_dist: &Option<String>, platform: Platform, event: GradleEvent) -> (r: GradleAction)
        ensures
            match event {
                GradleEvent::Started => match gradle_dist {
                    Some(d) => r matches GradleAction::InspectDist { dir, binary } && dir == *d
                        && binary@ == path_push_spec(d@, exec_name_spec(platform), platform),
                    None => r == GradleAction::QueryVersion,
                },
                GradleEvent::DistInspected { is_dir, binary_is_file } => match gradle_dist {
                    None => r == GradleAction::QueryVersion,
                    Some(d) => if !is_dir {
                        r == GradleAction::Fail(GradleFailure::InvalidDistDir)
                    } else if binary_is_file {
                        r matches GradleAction::Use(p) && p@ == path_push_spec(
                            d@,
                            exec_name_spec(platform),
                            platform,
                        )
                    } else {
                        r == GradleAction::QueryVersion
                    },
                },
                GradleEvent::VersionQueried { exit_code } => if exit_code == Some(0i32) {
                    r matches GradleAction::Use(p) && p@ == "gradle"@
                } else {
                    r == GradleAction::ListWrapper
                },
                GradleEvent::WrapperListed { names } => match names {
                    None => r == GradleAction::Fail(GradleFailure::NotFound),
                    Some(n) => {
                        &&& n.len() > 0 && !regex_compiles(GRADLE_DIST_PATTERN@) ==> r
                            == GradleAction::Fail(GradleFailure::Dist(GradleError::InvalidPattern))
                        &&& n.len() == 0 || regex_compiles(GRADLE_DIST_PATTERN@) ==> match newest_dist_index(
                            dist_candidates(string_views(n@)),
                        ) {
                            Ok(Some(j)) => r == GradleAction::UseWrapperDist(j as usize),
                            Ok(None) => r == GradleAction::Fail(GradleFailure::NotFound),
                            Err(e) => r == GradleAction::Fail(
                                GradleFailure::Dist(GradleError::InvalidVersion(e)),
                            ),
                        }
                    },
                },
            },
    {
        match event {
            GradleEvent::Started => match gradle_dist {
                Some(d) => GradleAction::InspectDist {
                    dir: d.clone(),
                    binary: Gradle::dist_binary(d, platform),
                },
                None => GradleAction::QueryVersion,
            },
            GradleEvent::DistInspected { is_dir, binary_is_file } => match gradle_dist {
                None => GradleAction::QueryVersion,
                Some(d) => {
                    if !is_dir {
                        GradleAction::Fail(GradleFailure::InvalidDistDir)
                    } else if binary_is_file {
                        GradleAction::Use(Gradle::dist_binary(d, platform))
                    } else {
                        GradleAction::QueryVersion
                    }
                },
            },
            GradleEvent::VersionQueried { exit_code } => {
                if exit_code == Some(0i32) {
                    GradleAction::Use(crate::text::string_of(&crate::text::chars_of("gradle")))
                } else {
                    GradleAction::ListWrapper
                }
            },
            GradleEvent::WrapperListed { names } => match names {
                None => GradleAction::Fail(GradleFailure::NotFound),
                Some(n) => match select_wrapper_dist(&n) {
                    Ok(Some(j)) => GradleAction::UseWrapperDist(j),
                    Ok(None) => GradleAction::Fail(GradleFailure::NotFound),
                    Err(e) => GradleAction::Fail(GradleFailure::Dist(e)),
                },
            },
        }
    }
}

} // verus!
