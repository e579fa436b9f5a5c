//! Finding the newest release of the Paper API that belongs to a Minecraft
//! version: the repository to browse, the versions that its listing names,
//! and the dates of their pages.
use vstd::prelude::*;
use crate::pattern::{
    all_captures, first_captures, found_texts, group_texts, match_texts, naive_timestamp,
    parse_naive_timestamp, regex_all_captures, regex_compiles, regex_first_captures,
};
use crate::text::{
    IntErrorKind, chars_of, first_segment, first_segment_spec, parse_u16, parse_u16_spec,
    string_of, trim, trim_spec,
};

verus! {

/// Finds the minor number (group 1, `v`) of a Minecraft version such as `1.19.2`.
pub const MINOR_VERSION_PATTERN: &'static str = r"\d+\.(?P<v>\d+)(\.\d+(-SNAPSHOT)?)?";

/// The repository browser for Minecraft versions before 1.17.
pub const LEGACY_REPOSITORY: &'static str = "https://papermc.io/repo/service/rest/repository/browse/maven-public/com/destroystokyo/paper/paper-api/";

/// The repository browser for Minecraft 1.17 and later.
pub const PAPER_REPOSITORY: &'static str = "https://repo.papermc.io/service/rest/repository/browse/maven-public/io/papermc/paper/paper-api/";

/// A row of a repository listing: a link (group 1, `link`) and its text
/// (group 2, `v`).
pub const LISTING_ROW_PATTERN: &'static str = r#"<td><a href="(?P<link>.+)/">(?P<v>.+)</a></td>"#;

/// The first plain cell of a version page (group 1), which holds its date.
pub const LISTING_DATE_PATTERN: &'static str = r"<td>([a-zA-Z\d:\s]+)</td>";

/// How a version page writes its date, e.g. `Sun Aug 21 03:07:41 UTC 2022`.
pub const LISTING_DATE_FORMAT: &'static str = "%a %b %d %H:%M:%S %Z %Y";

/// Why a release could not be looked up.
#[derive(Debug, Clone, Copy, PartialEq, Eq, Structural)]
pub enum LookupError {
    /// The regular expression does not compile.
    InvalidPattern,
    /// The Minecraft version has no `major.minor` part.
    NoMatch,
    /// A match lacks a capture group that the pattern always has.
    MissingGroup,
    /// The minor number is not a `u16`.
    InvalidNumber(IntErrorKind),
    /// No release of the API belongs to the Minecraft version.
    NoMatchingRelease,
    /// The version pages handed in are not one for each release.
    PagesMismatch,
}

/// The text of group `i` of a match, if the match has it.
pub open spec fn group_at(g: Seq<Option<Seq<char>>>, i: int) -> Option<Seq<char>> {
    if 0 <= i < g.len() {
        g[i]
    } else {
        None
    }
}

/// The repository that a match of `MINOR_VERSION_PATTERN` selects: the legacy
/// one below minor version 17.
pub open spec fn repository_spec(found: Option<Seq<Option<Seq<char>>>>) -> Result<Seq<char>, LookupError> {
    match found {
        None => Err(LookupError::NoMatch),
        Some(g) => match group_at(g, 1) {
            None => Err(LookupError::MissingGroup),
            Some(v) => match parse_u16_spec(v) {
                Err(k) => Err(LookupError::InvalidNumber(k)),
                Ok(n) => if n < 17 {
                    Ok(LEGACY_REPOSITORY@)
                } else {
                    Ok(PAPER_REPOSITORY@)
                },
            },
        },
    }
}

/// The views of a result that holds a static text.
pub open spec fn text_result(r: Result<&'static str, LookupError>) -> Result<Seq<char>, LookupError> {
    match r {
        Ok(s) => Ok(s@),
        Err(e) => Err(e),
    }
}

fn group_of(g: &Vec<Option<String>>, i: usize) -> (r: Option<String>)
    ensures
        match r {
            Some(s) => group_at(group_texts(g@), i as int) == Some(s@),
            None => group_at(group_texts(g@), i as int) is None,
        },
{
    if i < g.len() {
        match &g[i] {
            Some(s) => Some(s.clone()),
            None => None,
        }
    } else {
        None
    }
}

/// The repository that a match of `MINOR_VERSION_PATTERN` selects.
pub fn repository_for_match(found: &Option<Vec<Option<String>>>) -> (r: Result<&'static str, LookupError>)
    ensures
        text_result(r) == repository_spec(found_texts(*found)),
{
    match found {
        None => Err(LookupError::NoMatch),
        Some(g) => match group_of(g, 1) {
            None => Err(LookupError::MissingGroup),
            Some(v) => match parse_u16(&chars_of(&v)) {
                Err(k) => Err(LookupError::InvalidNumber(k)),
                Ok(n) => if n < 17 {
                    Ok(LEGACY_REPOSITORY)
                } else {
                    Ok(PAPER_REPOSITORY)
                },
            },
        },
    }
}

/// The repository listing to browse for the Minecraft version `version`:
/// the one that the first match of `MINOR_VERSION_PATTERN` selects.
pub open spec fn repository_lookup_spec(version: Seq<char>) -> Result<Seq<char>, LookupError> {
    if regex_compiles(MINOR_VERSION_PATTERN@) {
        repository_spec(regex_first_captures(MINOR_VERSION_PATTERN@, version))
    } else {
        Err(LookupError::InvalidPattern)
    }
}

/// The repository listing to browse for the Minecraft version `version`.
pub fn repository_url(version: &str) -> (r: Result<&'static str, LookupError>)
    ensures
        text_result(r) == repository_lookup_spec(version@),
{
    match first_captures(MINOR_VERSION_PATTERN, version) {
        Err(_) => Err(LookupError::InvalidPattern),
        Ok(found) => repository_for_match(&found),
    }
}

/// The versions that listing rows name: of each row whose link and text are
/// the same, that text, in order.
pub open spec fn listed_versions(rows: Seq<Seq<Option<Seq<char>>>>) -> Seq<Seq<char>>
    decreases rows.len(),
{
    if rows.len() == 0 {
        Seq::empty()
    } else {
        let before = listed_versions(rows.drop_last());
        let row = rows.last();
        match (group_at(row, 1), group_at(row, 2)) {
            (Some(link), Some(v)) => if v == link {
                before.push(v)
            } else {
                before
            },
            _ => before,
        }
    }
}

/// The views of a vector of strings.
pub open spec fn string_views(v: Seq<String>) -> Seq<Seq<char>> {
    v.map_values(|s: String| s@)
}

/// The versions that the rows of a repository listing name.
pub fn api_versions_from_matches(rows: &Vec<Vec<Option<String>>>) -> (r: Vec<String>)
    ensures
        string_views(r@) == listed_versions(match_texts(rows@)),
{
    let ghost all = match_texts(rows@);
    let mut out: Vec<String> = Vec::new();
    let mut i: usize = 0;
    while i < rows.len()
        invariant
            i <= rows.len(),
            all == match_texts(rows@),
            string_views(out@) == listed_versions(all.take(i as int)),
        decreases rows.len() - i,
    {
        assert(all.take(i + 1).drop_last() =~= all.take(i as int));
        assert(all.take(i + 1).last() == group_texts(rows@[i as int]@));
        let link = group_of(&rows[i], 1);
        let v = group_of(&rows[i], 2);
        match (link, v) {
            (Some(link), Some(v)) => {
                if link == v {
                    out.push(v);
                    assert(string_views(out@) =~= listed_versions(all.take(i as int)).push(
                        out@.last()@,
                    ));
                }
            },
            _ => {},
        }
        i += 1;
    }
    assert(all.take(rows.len() as int) =~= all);
    out
}

/// The versions that the repository listing `content` names.
pub fn retrieve_api_versions(content: &str) -> (r: Result<Vec<String>, LookupError>)
    ensures
        match r {
            Ok(v) => regex_compiles(LISTING_ROW_PATTERN@) && string_views(v@) == listed_versions(
                regex_all_captures(LISTING_ROW_PATTERN@, content@),
            ),
            Err(e) => !regex_compiles(LISTING_ROW_PATTERN@) && e == LookupError::InvalidPattern,
        },
{
    match all_captures(LISTING_ROW_PATTERN, content) {
        Err(_) => Err(LookupError::InvalidPattern),
        Ok(rows) => Ok(api_versions_from_matches(&rows)),
    }
}

/// The versions in `versions` whose part before the first `-` is `api`, in order.
pub open spec fn versions_for_api(versions: Seq<Seq<char>>, api: Seq<char>) -> Seq<Seq<char>>
    decreases versions.len(),
{
    if versions.len() == 0 {
        Seq::empty()
    } else {
        let before = versions_for_api(versions.drop_last(), api);
        if first_segment_spec(versions.last(), '-') == api {
            before.push(versions.last())
        } else {
            before
        }
    }
}

/// Every release kept for a Minecraft version is one of the given releases
/// and its part before the first `-` is that version.
pub proof fn lemma_versions_for_api(versions: Seq<Seq<char>>, api: Seq<char>)
    ensures
        forall|k: int|
            0 <= k < versions_for_api(versions, api).len() ==> {
                &&& first_segment_spec(#[trigger] versions_for_api(versions, api)[k], '-') == api
                &&& versions.contains(versions_for_api(versions, api)[k])
            },
    decreases versions.len(),
{
    if versions.len() > 0 {
        let p = versions.drop_last();
        lemma_versions_for_api(p, api);
        assert forall|k: int| 0 <= k < versions_for_api(versions, api).len() implies {
            &&& first_segment_spec(#[trigger] versions_for_api(versions, api)[k], '-') == api
            &&& versions.contains(versions_for_api(versions, api)[k])
        } by {
            if k < versions_for_api(p, api).len() {
                assert(versions_for_api(versions, api)[k] == versions_for_api(p, api)[k]);
                let w = choose|w: int| 0 <= w < p.len() && p[w] == versions_for_api(p, api)[k];
                assert(versions[w] == p[w]);
            } else {
                assert(versions[versions.len() - 1] == versions.last());
            }
        }
    }
}

/// The releases of the API that belong to the Minecraft version `api_version`:
/// those whose part before the first `-` is that version.
pub fn matching_api_versions(versions: &Vec<String>, api_version: &str) -> (r: Vec<String>)
    ensures
        string_views(r@) == versions_for_api(string_views(versions@), api_version@),
{
    let ghost all = string_views(versions@);
    let api = chars_of(api_version);
    let mut out: Vec<String> = Vec::new();
    let mut i: usize = 0;
    while i < versions.len()
        invariant
            i <= versions.len(),
            all == string_views(versions@),
            api@ == api_version@,
            string_views(out@) == versions_for_api(all.take(i as int), api_version@),
        decreases versions.len() - i,
    {
        assert(all.take(i + 1).drop_last() =~= all.take(i as int));
        assert(all.take(i + 1).last() == versions@[i as int]@);
        let head = first_segment(&chars_of(&versions[i]), '-');
        if crate::text::same_chars(&head, &api) {
            out.push(versions[i].clone());
            assert(string_views(out@) =~= versions_for_api(all.take(i as int), api_version@).push(
                versions@[i as int]@,
            ));
        }
        i += 1;
    }
    assert(all.take(versions.len() as int) =~= all);
    out
}

/// The text of the date cell that the first match on a version page holds,
/// with surrounding white space removed.
pub open spec fn date_text_spec(rows: Seq<Seq<Option<Seq<char>>>>) -> Result<Option<Seq<char>>, LookupError> {
    if rows.len() == 0 {
        Ok(None)
    } else {
        match group_at(rows[0], 1) {
            None => Err(LookupError::MissingGroup),
            Some(t) => Ok(Some(trim_spec(t))),
        }
    }
}

/// The views of an optional string.
pub open spec fn opt_view(o: Option<String>) -> Option<Seq<char>> {
    match o {
        Some(s) => Some(s@),
        None => None,
    }
}

/// The trimmed date text of the first match of `LISTING_DATE_PATTERN`.
pub fn date_text_from_matches(rows: &Vec<Vec<Option<String>>>) -> (r: Result<Option<String>, LookupError>)
    ensures
        match r {
            Ok(t) => date_text_spec(match_texts(rows@)) == Ok::<Option<Seq<char>>, LookupError>(opt_view(t)),
            Err(e) => date_text_spec(match_texts(rows@)) == Err::<Option<Seq<char>>, LookupError>(e),
        },
{
    if rows.len() == 0 {
        return Ok(None);
    }
    assert(match_texts(rows@)[0] == group_texts(rows@[0]@));
    match group_of(&rows[0], 1) {
        None => Err(LookupError::MissingGroup),
        Some(t) => Ok(Some(trim(&t))),
    }
}

/// When the version page `content` was published, as a timestamp: `None`
/// where the page holds no date cell or its text is not a date.
pub open spec fn page_timestamp_spec(content: Seq<char>) -> Result<Option<i64>, LookupError> {
    if !regex_compiles(LISTING_DATE_PATTERN@) {
        Err(LookupError::InvalidPattern)
    } else {
        match date_text_spec(regex_all_captures(LISTING_DATE_PATTERN@, content)) {
            Err(e) => Err(e),
            Ok(None) => Ok(None),
            Ok(Some(t)) => Ok(naive_timestamp(t, LISTING_DATE_FORMAT@)),
        }
    }
}

/// When the version page `content` was published, as a timestamp.
pub fn listing_timestamp(content: &str) -> (r: Result<Option<i64>, LookupError>)
    ensures
        r == page_timestamp_spec(content@),
{
    match all_captures(LISTING_DATE_PATTERN, content) {
        Err(_) => Err(LookupError::InvalidPattern),
        Ok(rows) => match date_text_from_matches(&rows) {
            Err(e) => Err(e),
            Ok(None) => Ok(None),
            Ok(Some(t)) => match parse_naive_timestamp(&t, LISTING_DATE_FORMAT) {
                Ok(ts) => Ok(Some(ts)),
                Err(_) => Ok(None),
            },
        },
    }
}

/// The publication timestamps of dated versions.
pub open spec fn dates_of(d: Seq<(String, Option<i64>)>) -> Seq<Option<i64>> {
    d.map_values(|e: (String, Option<i64>)| e.1)
}

/// Where the newest dated entry stands: the last of those with the greatest
/// timestamp (what a stable sort by timestamp puts last).
pub open spec fn newest_index(ts: Seq<Option<i64>>) -> Option<int>
    decreases ts.len(),
{
    if ts.len() == 0 {
        None
    } else {
        let before = newest_index(ts.drop_last());
        match ts.last() {
            None => before,
            Some(t) => match before {
                None => Some(ts.len() - 1),
                Some(j) => if t >= ts[j]->0 {
                    Some(ts.len() - 1)
                } else {
                    before
                },
            },
        }
    }
}

/// The newest entry has a timestamp, no entry is newer, and every later entry
/// is older; there is none exactly when no entry has a timestamp.
pub proof fn lemma_newest_index(ts: Seq<Option<i64>>)
    ensures
        newest_index(ts) is None <==> forall|k: int| 0 <= k < ts.len() ==> ts[k] is None,
        newest_index(ts) matches Some(j) ==> {
            &&& 0 <= j < ts.len()
            &&& ts[j] is Some
            &&& forall|k: int| 0 <= k < ts.len() && ts[k] is Some ==> ts[k]->0 <= ts[j]->0
            &&& forall|k: int| j < k < ts.len() && ts[k] is Some ==> ts[k]->0 < ts[j]->0
        },
    decreases ts.len(),
{
    if ts.len() > 0 {
        let p = ts.drop_last();
        lemma_newest_index(p);
        assert forall|k: int| 0 <= k < p.len() implies p[k] == ts[k] by {}
    }
}

/// The newest of the dated versions: the last of those with the greatest
/// timestamp, or `None` when none has a timestamp.
pub fn retrieve_newest_version(dated: &Vec<(String, Option<i64>)>) -> (r: Option<String>)
    ensures
        match newest_index(dates_of(dated@)) {
            None => r is None,
            Some(j) => r matches Some(v) && v@ == dated@[j].0@,
        },
        opt_view(r) == newest_release_spec(dated_views(dated@)),
{
    let ghost ts = dates_of(dated@);
    let mut best: Option<(usize, i64)> = None;
    let mut i: usize = 0;
    while i < dated.len()
        invariant
            i <= dated.len(),
            ts == dates_of(dated@),
            match best {
                None => newest_index(ts.take(i as int)) is None,
                Some((j, t)) => newest_index(ts.take(i as int)) == Some(j as int) && j < i
                    && ts[j as int] == Some(t),
            },
        decreases dated.len() - i,
    {
        let ghost prefix = ts.take(i + 1);
        assert(prefix.drop_last() =~= ts.take(i as int));
        assert(prefix.last() == dated@[i as int].1);
        match dated[i].1 {
            None => {},
            Some(t) => {
                match best {
                    None => {
                        best = Some((i, t));
                    },
                    Some((j, bt)) => {
                        assert(prefix[j as int] == ts[j as int]);
                        if t >= bt {
                            best = Some((i, t));
                        }
                    },
                }
            },
        }
        i += 1;
    }
    assert(ts.take(dated.len() as int) =~= ts);
    assert(release_dates(dated_views(dated@)) =~= ts);
    match best {
        None => None,
        Some((j, _)) => Some(dated[j].0.clone()),
    }
}

/// The address of the page of `version` in the repository listing `listing`.
pub fn version_page_url(listing: &str, version: &str) -> (r: String)
    ensures
        r@ == listing@ + version@,
{
    let mut v = chars_of(listing);
    let w = chars_of(version);
    crate::text::extend_range(&mut v, &w, 0, w.len());
    assert(w@.subrange(0, w.len() as int) =~= w@);
    string_of(&v)
}


/// The releases of the API that belong to the Minecraft version `version`
/// among those that the repository listing `listing` names, in order.
pub open spec fn release_candidates_spec(version: Seq<char>, listing: Seq<char>) -> Result<
    Seq<Seq<char>>,
    LookupError,
> {
    match repository_lookup_spec(version) {
        Err(e) => Err(e),
        Ok(_) => if regex_compiles(LISTING_ROW_PATTERN@) {
            Ok(
                versions_for_api(
                    listed_versions(regex_all_captures(LISTING_ROW_PATTERN@, listing)),
                    version,
                ),
            )
        } else {
            Err(LookupError::InvalidPattern)
        },
    }
}

/// The addresses of the pages of those releases, in the same order: each
/// is the repository listing's address followed by the release.
pub open spec fn release_pages_spec(version: Seq<char>, listing: Seq<char>) -> Result<
    Seq<Seq<char>>,
    LookupError,
> {
    match repository_lookup_spec(version) {
        Err(e) => Err(e),
        Ok(repo) => match release_candidates_spec(version, listing) {
            Err(e) => Err(e),
            Ok(c) => Ok(c.map_values(|v: Seq<char>| repo + v)),
        },
    }
}

/// The publication timestamps of the version pages `pages`, in order, or the
/// first failure to read one.
pub open spec fn page_dates_spec(pages: Seq<Seq<char>>) -> Result<Seq<Option<i64>>, LookupError>
    decreases pages.len(),
{
    if pages.len() == 0 {
        Ok(Seq::empty())
    } else {
        match page_dates_spec(pages.drop_last()) {
            Err(e) => Err(e),
            Ok(ts) => match page_timestamp_spec(pages.last()) {
                Err(e) => Err(e),
                Ok(t) => Ok(ts.push(t)),
            },
        }
    }
}

/// The release settled on for the Minecraft version `version`, given the
/// repository listing `listing` and the pages `pages` of the releases that
/// belong to the version, in the order of `release_pages_spec`: the newest
/// of them by the dates of their pages.
pub open spec fn settled_release_spec(
    version: Seq<char>,
    listing: Seq<char>,
    pages: Seq<Seq<char>>,
) -> Result<Seq<char>, LookupError> {
    match release_candidates_spec(version, listing) {
        Err(e) => Err(e),
        Ok(c) => if pages.len() != c.len() {
            Err(LookupError::PagesMismatch)
        } else {
            match page_dates_spec(pages) {
                Err(e) => Err(e),
                Ok(ts) => match newest_index(ts) {
                    None => Err(LookupError::NoMatchingRelease),
                    Some(j) => Ok(c[j]),
                },
            }
        },
    }
}

/// The releases of the API for the Minecraft version `version` that the
/// repository listing `listing` names.
pub fn release_candidates(version: &str, listing: &str) -> (r: Result<Vec<String>, LookupError>)
    ensures
        match r {
            Ok(v) => release_candidates_spec(version@, listing@) == Ok::<
                Seq<Seq<char>>,
                LookupError,
            >(string_views(v@)),
            Err(e) => release_candidates_spec(version@, listing@) == Err::<
                Seq<Seq<char>>,
                LookupError,
            >(e),
        },
{
    match repository_url(version) {
        Err(e) => Err(e),
        Ok(_) => match retrieve_api_versions(listing) {
            Err(e) => Err(e),
            Ok(listed) => Ok(matching_api_versions(&listed, version)),
        },
    }
}

/// The address of the page of each release in `releases`, in the repository
/// listing `repo`.
pub fn page_urls(repo: &str, releases: &Vec<String>) -> (r: Vec<String>)
    ensures
        string_views(r@) == string_views(releases@).map_values(|v: Seq<char>| repo@ + v),
{
    let mut out: Vec<String> = Vec::new();
    let mut i: usize = 0;
    while i < releases.len()
        invariant
            i <= releases.len(),
            string_views(out@) == string_views(releases@).take(i as int).map_values(
                |v: Seq<char>| repo@ + v,
            ),
        decreases releases.len() - i,
    {
        let u = version_page_url(repo, &releases[i]);
        let ghost before = out@;
        out.push(u);
        assert(string_views(out@) =~= string_views(before).push(u@));
        assert(string_views(releases@).take(i + 1) =~= string_views(releases@).take(i as int).push(
            releases@[i as int]@,
        ));
        assert(string_views(out@) =~= string_views(releases@).take(i + 1).map_values(
            |v: Seq<char>| repo@ + v,
        ));
        i += 1;
    }
    assert(string_views(releases@).take(releases.len() as int) =~= string_views(releases@));
    out
}

/// Once a version page cannot be read, the pages that follow it change nothing.
pub proof fn lemma_page_dates_failed_prefix(pages: Seq<Seq<char>>, k: int, e: LookupError)
    requires
        0 <= k <= pages.len(),
        page_dates_spec(pages.take(k)) == Err::<Seq<Option<i64>>, LookupError>(e),
    ensures
        page_dates_spec(pages) == Err::<Seq<Option<i64>>, LookupError>(e),
    decreases pages.len() - k,
{
    if k < pages.len() {
        assert(pages.take(k + 1).drop_last() =~= pages.take(k));
        lemma_page_dates_failed_prefix(pages, k + 1, e);
    } else {
        assert(pages.take(k) =~= pages);
    }
}

/// The publication timestamps of the version pages `pages`, in order.
pub fn page_dates(pages: &Vec<String>) -> (r: Result<Vec<Option<i64>>, LookupError>)
    ensures
        r matches Ok(ts) ==> ts.len() == pages.len(),
        match r {
            Ok(ts) => page_dates_spec(string_views(pages@)) == Ok::<
                Seq<Option<i64>>,
                LookupError,
            >(ts@),
            Err(e) => page_dates_spec(string_views(pages@)) == Err::<
                Seq<Option<i64>>,
                LookupError,
            >(e),
        },
{
    let ghost all = string_views(pages@);
    let mut out: Vec<Option<i64>> = Vec::new();
    let mut i: usize = 0;
    while i < pages.len()
        invariant
            i <= pages.len(),
            all == string_views(pages@),
            out.len() == i,
            page_dates_spec(all.take(i as int)) == Ok::<Seq<Option<i64>>, LookupError>(out@),
        decreases pages.len() - i,
    {
        assert(all.take(i + 1).drop_last() =~= all.take(i as int));
        assert(all.take(i + 1).last() == pages@[i as int]@);
        match listing_timestamp(&pages[i]) {
            Err(e) => {
                proof {
                    lemma_page_dates_failed_prefix(all, i + 1, e);
                }
                return Err(e);
            },
            Ok(t) => {
                out.push(t);
            },
        }
        i += 1;
    }
    assert(all.take(pages.len() as int) =~= all);
    Ok(out)
}

/// The release settled on for the Minecraft version `version`, given the
/// repository listing `listing` and the pages of the releases that belong to
/// the version, in the order of `release_pages_spec`: the newest of them by
/// the dates of their pages.
pub fn settle_release(version: &str, listing: &str, pages: &Vec<String>) -> (r: Result<
    String,
    LookupError,
>)
    ensures
        match r {
            Ok(v) => settled_release_spec(version@, listing@, string_views(pages@)) == Ok::<
                Seq<char>,
                LookupError,
            >(v@),
            Err(e) => settled_release_spec(version@, listing@, string_views(pages@)) == Err::<
                Seq<char>,
                LookupError,
            >(e),
        },
{
    let cands = match release_candidates(version, listing) {
        Err(e) => {
            return Err(e);
        },
        Ok(c) => c,
    };
    if pages.len() != cands.len() {
        return Err(LookupError::PagesMismatch);
    }
    let ts = match page_dates(pages) {
        Err(e) => {
            return Err(e);
        },
        Ok(ts) => ts,
    };
    let mut dated: Vec<(String, Option<i64>)> = Vec::new();
    let mut i: usize = 0;
    while i < cands.len()
        invariant
            i <= cands.len(),
            ts.len() == cands.len(),
            dated.len() == i,
            forall|k: int| 0 <= k < i ==> (#[trigger] dated@[k]).0@ == cands@[k]@ && dated@[k].1 == ts@[k],
        decreases cands.len() - i,
    {
        dated.push((cands[i].clone(), ts[i]));
        i += 1;
    }
    assert(dates_of(dated@) =~= ts@);
    proof {
        lemma_newest_index(ts@);
    }
    match retrieve_newest_version(&dated) {
        None => Err(LookupError::NoMatchingRelease),
        Some(v) => Ok(v),
    }
}


/// The release settled on belongs to the Minecraft version (its part before
/// the first `-` is the version), is one that the repository listing names,
/// and no release of the version has a page dated later than its own.
pub proof fn lemma_settled_release(version: Seq<char>, listing: Seq<char>, pages: Seq<Seq<char>>)
    ensures
        settled_release_spec(version, listing, pages) matches Ok(r) ==> {
            &&& first_segment_spec(r, '-') == version
            &&& listed_versions(regex_all_captures(LISTING_ROW_PATTERN@, listing)).contains(r)
            &&& release_candidates_spec(version, listing) matches Ok(c)
            &&& page_dates_spec(pages) matches Ok(ts)
            &&& exists|j: int|
                0 <= j < c.len() && c[j] == r && ts[j] is Some && forall|k: int|
                    0 <= k < ts.len() && ts[k] is Some ==> ts[k]->0 <= ts[j]->0
        },
{
    if let Ok(r) = settled_release_spec(version, listing, pages) {
        let listed = listed_versions(regex_all_captures(LISTING_ROW_PATTERN@, listing));
        let c = versions_for_api(listed, version);
        let ts = page_dates_spec(pages)->Ok_0;
        lemma_versions_for_api(listed, version);
        lemma_newest_index(ts);
        lemma_page_dates_len(pages);
        let j = newest_index(ts)->0;
        assert(c[j] == r);
        assert(first_segment_spec(c[j], '-') == version);
        assert(listed.contains(c[j]));
    }
}

/// Reading the version pages gives one timestamp per page.
pub proof fn lemma_page_dates_len(pages: Seq<Seq<char>>)
    ensures
        page_dates_spec(pages) matches Ok(ts) ==> ts.len() == pages.len(),
    decreases pages.len(),
{
    if pages.len() > 0 {
        lemma_page_dates_len(pages.drop_last());
    }
}

/// Every page address lies in the repository listing chosen for the
/// Minecraft version, and there is one for each release of the version.
pub proof fn lemma_release_pages_in_repository(version: Seq<char>, listing: Seq<char>)
    ensures
        release_pages_spec(version, listing) matches Ok(p) ==> {
            &&& repository_lookup_spec(version) matches Ok(repo)
            &&& release_candidates_spec(version, listing) matches Ok(c)
            &&& p.len() == c.len()
            &&& forall|k: int| 0 <= k < p.len() ==> #[trigger] p[k] == repo + c[k]
        },
{
}

/// The name and date of each dated release.
pub open spec fn dated_views(d: Seq<(String, Option<i64>)>) -> Seq<(Seq<char>, Option<i64>)> {
    d.map_values(|e: (String, Option<i64>)| (e.0@, e.1))
}

/// The dates of releases given by name and date.
pub open spec fn release_dates(d: Seq<(Seq<char>, Option<i64>)>) -> Seq<Option<i64>> {
    d.map_values(|e: (Seq<char>, Option<i64>)| e.1)
}

/// The newest of releases given by name and date: the last of those with
/// the greatest date, `None` when none has a date.
pub open spec fn newest_release_spec(d: Seq<(Seq<char>, Option<i64>)>) -> Option<Seq<char>> {
    match newest_index(release_dates(d)) {
        None => None,
        Some(j) => Some(d[j].0),
    }
}

/// When no two releases share a date, the newest does not depend on the
/// order in which the releases come: any list with the same entries, such as
/// a reordering, gives the same newest release.
pub proof fn lemma_newest_release_order_free(
    a: Seq<(Seq<char>, Option<i64>)>,
    b: Seq<(Seq<char>, Option<i64>)>,
)
    requires
        forall|i: int| 0 <= i < a.len() ==> b.contains(#[trigger] a[i]),
        forall|i: int| 0 <= i < b.len() ==> a.contains(#[trigger] b[i]),
        forall|i: int, k: int|
            0 <= i < k < a.len() && a[i].1 is Some && a[k].1 is Some ==> #[trigger] a[i].1->0
                != #[trigger] a[k].1->0,
    ensures
        newest_release_spec(a) == newest_release_spec(b),
{
    let ta = release_dates(a);
    let tb = release_dates(b);
    lemma_newest_index(ta);
    lemma_newest_index(tb);
    match (newest_index(ta), newest_index(tb)) {
        (Some(ja), Some(jb)) => {
            let w = choose|w: int| 0 <= w < a.len() && a[w] == b[jb];
            let u = choose|u: int| 0 <= u < b.len() && b[u] == a[ja];
            assert(ta[w] == tb[jb]);
            assert(tb[u] == ta[ja]);
            assert(ta[w]->0 <= ta[ja]->0);
            assert(tb[u]->0 <= tb[jb]->0);
            if w != ja {
                if w < ja {
                    assert(a[w].1->0 != a[ja].1->0);
                } else {
                    assert(a[ja].1->0 != a[w].1->0);
                }
            }
        },
        (Some(ja), None) => {
            let u = choose|u: int| 0 <= u < b.len() && b[u] == a[ja];
            assert(tb[u] == ta[ja]);
        },
        (None, Some(jb)) => {
            let w = choose|w: int| 0 <= w < a.len() && a[w] == b[jb];
            assert(ta[w] == tb[jb]);
        },
        (None, None) => {},
    }
}


/// The releases kept for a Minecraft version are exactly the listed ones
/// whose part before the first `-` is that version, in listing order: none
/// that matches is left out.
pub proof fn lemma_versions_for_api_complete(versions: Seq<Seq<char>>, api: Seq<char>)
    ensures
        versions_for_api(versions, api) == versions.filter(
            |v: Seq<char>| first_segment_spec(v, '-') == api,
        ),
    decreases versions.len(),
{
    reveal(Seq::filter);
    if versions.len() > 0 {
        lemma_versions_for_api_complete(versions.drop_last(), api);
    }
}

/// The repository depends on the minor number alone: the legacy repository
/// exactly below 17, the current one from 17 on; the two are different.
pub proof fn lemma_repository_threshold(g: Seq<Option<Seq<char>>>, minor: Seq<char>, n: u16)
    requires
        group_at(g, 1) == Some(minor),
        parse_u16_spec(minor) == Ok::<u16, IntErrorKind>(n),
    ensures
        n < 17 ==> repository_spec(Some(g)) == Ok::<Seq<char>, LookupError>(LEGACY_REPOSITORY@),
        n >= 17 ==> repository_spec(Some(g)) == Ok::<Seq<char>, LookupError>(PAPER_REPOSITORY@),
        LEGACY_REPOSITORY@ != PAPER_REPOSITORY@,
{
    reveal_strlit("https://papermc.io/repo/service/rest/repository/browse/maven-public/com/destroystokyo/paper/paper-api/");
    reveal_strlit("https://repo.papermc.io/service/rest/repository/browse/maven-public/io/papermc/paper/paper-api/");
    assert(LEGACY_REPOSITORY@[8] != PAPER_REPOSITORY@[8]);
}

/// For a Minecraft version whose minor number `n` the pattern finds, the
/// repository listing is the legacy one exactly when `n < 17`.
pub proof fn lemma_repository_lookup_threshold(version: Seq<char>, g: Seq<Option<Seq<char>>>, minor: Seq<char>, n: u16)
    requires
        regex_compiles(MINOR_VERSION_PATTERN@),
        regex_first_captures(MINOR_VERSION_PATTERN@, version) == Some(g),
        group_at(g, 1) == Some(minor),
        parse_u16_spec(minor) == Ok::<u16, IntErrorKind>(n),
    ensures
        n < 17 ==> repository_lookup_spec(version) == Ok::<Seq<char>, LookupError>(LEGACY_REPOSITORY@),
        n >= 17 ==> repository_lookup_spec(version) == Ok::<Seq<char>, LookupError>(PAPER_REPOSITORY@),
{
    lemma_repository_threshold(g, minor, n);
}

} // verus!
