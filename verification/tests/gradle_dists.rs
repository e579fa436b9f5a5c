use mcgen::gradle::{
    dist_version, dist_version_from_match, select_from_versions, select_wrapper_dist, Gradle, GradleAction,
    GradleError, GradleEvent, GradleFailure, Platform,
};
use mcgen::semver::SemVerError;
use mcgen::text::IntErrorKind;

fn strings(v: &[&str]) -> Vec<String> {
    v.iter().map(|s| s.to_string()).collect()
}

#[test]
fn exec_name_per_platform() {
    assert_eq!(Gradle::gradle_exec_name(Platform::Unix), "gradle");
    assert_eq!(Gradle::gradle_exec_name(Platform::Windows), "gradle.bat");
}

#[test]
fn dist_version_reads_directory_names() {
    assert_eq!(dist_version("gradle-7.4.2-bin"), Ok(Some("7.4.2".to_string())));
    assert_eq!(dist_version("gradle-7.5-rc-1-all"), Ok(Some("7.5".to_string())));
    assert_eq!(dist_version("gradle-8.0-milestone-all"), Ok(Some("8.0".to_string())));
    assert_eq!(dist_version("gradle-x-gradle-6.8-bin"), Ok(Some("6.8".to_string())));
    assert_eq!(dist_version("gradle-7.4.2-src"), Ok(None));
    assert_eq!(dist_version("caches"), Ok(None));
}

#[test]
fn dist_version_from_match_reads_group_one() {
    assert_eq!(dist_version_from_match(&None), None);
    assert_eq!(dist_version_from_match(&Some(vec![Some("g".to_string())])), None);
    assert_eq!(dist_version_from_match(&Some(vec![Some("g".to_string()), Some("1.2".to_string())])), Some("1.2".to_string()));
}

#[test]
fn greatest_distribution_is_chosen() {
    let names = strings(&["gradle-6.8-bin", "caches", "gradle-7.4.2-all", "gradle-7.4-bin", "gradle-7.4.10-bin"]);
    assert_eq!(select_wrapper_dist(&names), Ok(Some(4)));
    let names = strings(&["gradle-7.4-bin", "gradle-7.4-all", "gradle-7.3-bin"]);
    assert_eq!(select_wrapper_dist(&names), Ok(Some(1)));
    assert_eq!(select_wrapper_dist(&strings(&["caches", "notes.txt"])), Ok(None));
    assert_eq!(select_wrapper_dist(&vec![]), Ok(None));
}

#[test]
fn prefix_version_is_smaller() {
    let names = strings(&["gradle-7.4.0-bin", "gradle-7.4-bin"]);
    assert_eq!(select_wrapper_dist(&names), Ok(Some(0)));
}

#[test]
fn bad_distribution_version_fails_the_choice() {
    let names = strings(&["gradle-7.4-bin", "gradle-1..2-bin", "gradle-.-bin"]);
    assert_eq!(
        select_wrapper_dist(&names),
        Err(GradleError::InvalidVersion(SemVerError { kind: IntErrorKind::Empty }))
    );
    let names = strings(&["gradle-99999.1-bin"]);
    assert_eq!(
        select_wrapper_dist(&names),
        Err(GradleError::InvalidVersion(SemVerError { kind: IntErrorKind::PosOverflow }))
    );
}

#[test]
fn select_from_versions_on_candidates() {
    let c = vec![None, Some("2.0".to_string()), Some("10.0".to_string()), None, Some("9.99".to_string())];
    assert_eq!(select_from_versions(&c), Ok(Some(2)));
    let c = vec![Some("1".to_string()), Some("x".to_string()), Some("".to_string())];
    assert_eq!(select_from_versions(&c), Err(SemVerError { kind: IntErrorKind::InvalidDigit }));
    assert_eq!(select_from_versions(&vec![None, None]), Ok(None));
}

#[test]
fn search_starts_with_given_distribution() {
    assert_eq!(
        Gradle::locate_step(&Some("/opt/gradle/bin".to_string()), Platform::Unix, GradleEvent::Started),
        GradleAction::InspectDist { dir: "/opt/gradle/bin".to_string(), binary: "/opt/gradle/bin/gradle".to_string() }
    );
    assert_eq!(
        Gradle::locate_step(&Some("F:\\gradle\\bin".to_string()), Platform::Windows, GradleEvent::Started),
        GradleAction::InspectDist {
            dir: "F:\\gradle\\bin".to_string(),
            binary: "F:\\gradle\\bin\\gradle.bat".to_string()
        }
    );
    assert_eq!(Gradle::locate_step(&None, Platform::Unix, GradleEvent::Started), GradleAction::QueryVersion);
}

#[test]
fn search_uses_distribution_binary_or_moves_on() {
    let dist = Some("/opt/g".to_string());
    let ev = GradleEvent::DistInspected { is_dir: true, binary_is_file: true };
    assert_eq!(Gradle::locate_step(&dist, Platform::Unix, ev), GradleAction::Use("/opt/g/gradle".to_string()));
    let ev = GradleEvent::DistInspected { is_dir: true, binary_is_file: true };
    assert_eq!(Gradle::locate_step(&dist, Platform::Windows, ev), GradleAction::Use("/opt/g\\gradle.bat".to_string()));
    let ev = GradleEvent::DistInspected { is_dir: true, binary_is_file: false };
    assert_eq!(Gradle::locate_step(&dist, Platform::Unix, ev), GradleAction::QueryVersion);
    let ev = GradleEvent::DistInspected { is_dir: false, binary_is_file: true };
    assert_eq!(Gradle::locate_step(&dist, Platform::Unix, ev), GradleAction::Fail(GradleFailure::InvalidDistDir));
    let ev = GradleEvent::DistInspected { is_dir: true, binary_is_file: true };
    assert_eq!(Gradle::locate_step(&None, Platform::Unix, ev), GradleAction::QueryVersion);
}

#[test]
fn search_prefers_working_gradle_on_path() {
    assert_eq!(
        Gradle::locate_step(&None, Platform::Unix, GradleEvent::VersionQueried { exit_code: Some(0) }),
        GradleAction::Use("gradle".to_string())
    );
    assert_eq!(Gradle::locate_step(&None, Platform::Unix, GradleEvent::VersionQueried { exit_code: Some(1) }), GradleAction::ListWrapper);
    assert_eq!(Gradle::locate_step(&None, Platform::Unix, GradleEvent::VersionQueried { exit_code: None }), GradleAction::ListWrapper);
}

#[test]
fn search_ends_with_wrapper_distributions() {
    let names = Some(strings(&["gradle-6.8-bin", "gradle-7.1-all"]));
    assert_eq!(Gradle::locate_step(&None, Platform::Unix, GradleEvent::WrapperListed { names }), GradleAction::UseWrapperDist(1));
    assert_eq!(
        Gradle::locate_step(&None, Platform::Unix, GradleEvent::WrapperListed { names: None }),
        GradleAction::Fail(GradleFailure::NotFound)
    );
    assert_eq!(
        Gradle::locate_step(&None, Platform::Unix, GradleEvent::WrapperListed { names: Some(strings(&["caches"])) }),
        GradleAction::Fail(GradleFailure::NotFound)
    );
    assert_eq!(
        Gradle::locate_step(&None, Platform::Unix, GradleEvent::WrapperListed { names: Some(strings(&["gradle-7.x-bin"])) }),
        GradleAction::Fail(GradleFailure::NotFound)
    );
    assert_eq!(
        Gradle::locate_step(&None, Platform::Unix, GradleEvent::WrapperListed { names: Some(strings(&["gradle-7.-bin"])) }),
        GradleAction::Fail(GradleFailure::Dist(GradleError::InvalidVersion(SemVerError { kind: IntErrorKind::Empty })))
    );
}
