use mcgen::release::{
    api_versions_from_matches, date_text_from_matches, listing_timestamp, matching_api_versions,
    repository_for_match, repository_url, retrieve_api_versions, retrieve_newest_version,
    version_page_url, LookupError, LEGACY_REPOSITORY, PAPER_REPOSITORY,
};
use mcgen::text::IntErrorKind;

fn strings(v: &[&str]) -> Vec<String> {
    v.iter().map(|s| s.to_string()).collect()
}

#[test]
fn repository_depends_on_minor_version() {
    assert_eq!(repository_url("1.19.2"), Ok(PAPER_REPOSITORY));
    assert_eq!(repository_url("1.17"), Ok(PAPER_REPOSITORY));
    assert_eq!(repository_url("1.16.5"), Ok(LEGACY_REPOSITORY));
    assert_eq!(repository_url("1.8.8-SNAPSHOT"), Ok(LEGACY_REPOSITORY));
}

#[test]
fn repository_lookup_errors() {
    assert_eq!(repository_url("latest"), Err(LookupError::NoMatch));
    assert_eq!(repository_url("1"), Err(LookupError::NoMatch));
    assert_eq!(repository_url("1.99999"), Err(LookupError::InvalidNumber(IntErrorKind::PosOverflow)));
    // `\d` also matches non-ASCII digits, which are not a `u16`.
    assert_eq!(repository_url("1.\u{661}\u{667}"), Err(LookupError::InvalidNumber(IntErrorKind::InvalidDigit)));
}

#[test]
fn repository_for_match_reads_group_one() {
    let found = Some(vec![Some("1.12.2".to_string()), Some("12".to_string())]);
    assert_eq!(repository_for_match(&found), Ok(LEGACY_REPOSITORY));
    let found = Some(vec![Some("1.18".to_string()), Some("18".to_string())]);
    assert_eq!(repository_for_match(&found), Ok(PAPER_REPOSITORY));
    assert_eq!(repository_for_match(&None), Err(LookupError::NoMatch));
    assert_eq!(repository_for_match(&Some(vec![Some("x".to_string())])), Err(LookupError::MissingGroup));
    assert_eq!(repository_for_match(&Some(vec![Some("x".to_string()), None])), Err(LookupError::MissingGroup));
}

const LISTING: &str = "<table>\n<tr><td><a href=\"../\">Parent Directory</a></td></tr>\n<tr><td><a href=\"1.19.1-R0.1-SNAPSHOT/\">1.19.1-R0.1-SNAPSHOT</a></td></tr>\n<tr><td><a href=\"1.19.2-R0.1-SNAPSHOT/\">1.19.2-R0.1-SNAPSHOT</a></td></tr>\n<tr><td><a href=\"1.19-R0.1-SNAPSHOT/\">1.19-R0.1-SNAPSHOT</a></td></tr>\n<tr><td><a href=\"maven-metadata.xml\">maven-metadata.xml</a></td></tr>\n</table>";

#[test]
fn listing_names_versions_whose_link_is_their_text() {
    assert_eq!(
        retrieve_api_versions(LISTING),
        Ok(strings(&["1.19.1-R0.1-SNAPSHOT", "1.19.2-R0.1-SNAPSHOT", "1.19-R0.1-SNAPSHOT"]))
    );
    assert_eq!(retrieve_api_versions("no table"), Ok(vec![]));
}

#[test]
fn rows_with_missing_or_different_groups_are_skipped() {
    let rows = vec![
        vec![Some("row".to_string()), Some("a".to_string()), Some("a".to_string())],
        vec![Some("row".to_string()), Some("a".to_string()), Some("b".to_string())],
        vec![Some("row".to_string()), None, Some("c".to_string())],
        vec![Some("row".to_string()), Some("d".to_string())],
        vec![Some("row".to_string()), Some("e".to_string()), Some("e".to_string())],
    ];
    assert_eq!(api_versions_from_matches(&rows), strings(&["a", "e"]));
}

#[test]
fn matching_versions_share_the_part_before_the_dash() {
    let all = strings(&["1.19.1-R0.1-SNAPSHOT", "1.19.2-R0.1-SNAPSHOT", "1.19.2", "1.19.20-R0.1"]);
    assert_eq!(matching_api_versions(&all, "1.19.2"), strings(&["1.19.2-R0.1-SNAPSHOT", "1.19.2"]));
    assert_eq!(matching_api_versions(&all, "1.20"), Vec::<String>::new());
}

#[test]
fn page_timestamp_is_read_from_the_first_date_cell() {
    let page = "<tr><td><a href=\"x.jar\">x.jar</a></td><td>  Sun Aug 21 03:07:41 UTC 2022 </td></tr>";
    assert_eq!(listing_timestamp(page), Ok(Some(1661051261)));
    assert_eq!(listing_timestamp("<p>nothing</p>"), Ok(None));
    // The weekday does not fit the date, so the text is not a date.
    assert_eq!(listing_timestamp("<td>Mon Aug 21 03:07:41 UTC 2022</td>"), Ok(None));
}

#[test]
fn date_text_is_trimmed_group_one_of_first_match() {
    let rows = vec![
        vec![Some("<td> a </td>".to_string()), Some(" a ".to_string())],
        vec![Some("<td>b</td>".to_string()), Some("b".to_string())],
    ];
    assert_eq!(date_text_from_matches(&rows), Ok(Some("a".to_string())));
    assert_eq!(date_text_from_matches(&vec![]), Ok(None));
    assert_eq!(date_text_from_matches(&vec![vec![Some("x".to_string())]]), Err(LookupError::MissingGroup));
}

#[test]
fn newest_version_is_last_of_the_latest() {
    let dated = vec![
        ("a".to_string(), Some(5)),
        ("b".to_string(), None),
        ("c".to_string(), Some(7)),
        ("d".to_string(), Some(7)),
        ("e".to_string(), Some(3)),
    ];
    assert_eq!(retrieve_newest_version(&dated), Some("d".to_string()));
    assert_eq!(retrieve_newest_version(&vec![("a".to_string(), None)]), None);
    assert_eq!(retrieve_newest_version(&vec![]), None);
    assert_eq!(retrieve_newest_version(&vec![("x".to_string(), Some(-4))]), Some("x".to_string()));
}

#[test]
fn page_url_appends_version() {
    assert_eq!(version_page_url(PAPER_REPOSITORY, "1.19.2-R0.1-SNAPSHOT"), format!("{}1.19.2-R0.1-SNAPSHOT", PAPER_REPOSITORY));
}

#[test]
fn newest_release_does_not_depend_on_order() {
    let dated = vec![
        ("1.19.2-R0.1-A".to_string(), Some(30)),
        ("1.19.2-R0.1-B".to_string(), None),
        ("1.19.2-R0.1-C".to_string(), Some(50)),
        ("1.19.2-R0.1-D".to_string(), Some(10)),
    ];
    let orders = [[0, 1, 2, 3], [3, 2, 1, 0], [2, 0, 3, 1], [1, 3, 0, 2]];
    for order in orders {
        let reordered: Vec<(String, Option<i64>)> = order.iter().map(|&i| dated[i].clone()).collect();
        assert_eq!(retrieve_newest_version(&reordered), Some("1.19.2-R0.1-C".to_string()));
    }
}
