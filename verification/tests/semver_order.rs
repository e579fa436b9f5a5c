use mcgen::semver::{SemVer, SemVerError, VersionOrder};
use mcgen::text::IntErrorKind;
use std::cmp::Ordering;

fn v(s: &str) -> SemVer {
    SemVer::try_from(s).unwrap()
}

#[test]
fn try_from_reads_components() {
    assert!(SemVer::try_from("7.4.2").is_ok());
    assert!(SemVer::try_from("8").is_ok());
}

#[test]
fn try_from_reports_first_bad_component() {
    assert_eq!(SemVer::try_from("").unwrap_err(), SemVerError { kind: IntErrorKind::Empty });
    assert_eq!(SemVer::try_from("1..2").unwrap_err(), SemVerError { kind: IntErrorKind::Empty });
    assert_eq!(SemVer::try_from("1.a.99999").unwrap_err(), SemVerError { kind: IntErrorKind::InvalidDigit });
    assert_eq!(SemVer::try_from("1.99999.a").unwrap_err(), SemVerError { kind: IntErrorKind::PosOverflow });
    assert_eq!(SemVer::try_from("7.").unwrap_err().description(), "cannot parse integer from empty string");
}

#[test]
fn compare_is_componentwise() {
    assert_eq!(v("7.4.2").compare(&v("7.4.10")), Some(VersionOrder::Less));
    assert_eq!(v("8.0").compare(&v("7.9.9")), Some(VersionOrder::Greater));
    assert_eq!(v("7.4").compare(&v("7.4")), Some(VersionOrder::Equal));
    assert_eq!(v("1.2").compare(&v("1.2.0")), Some(VersionOrder::Less));
    assert_eq!(v("1.2.0").compare(&v("1.2")), Some(VersionOrder::Greater));
}

#[test]
fn partial_cmp_matches_compare() {
    assert_eq!(v("6.8").partial_cmp(&v("6.9")), Some(Ordering::Less));
    assert_eq!(v("6.9").partial_cmp(&v("6.8")), Some(Ordering::Greater));
    assert_eq!(v("6.9").partial_cmp(&v("6.9")), Some(Ordering::Equal));
}

#[test]
fn comparison_operators_follow_partial_cmp() {
    assert!(v("6.8") < v("6.9"));
    assert!(v("6.8") <= v("6.9"));
    assert!(v("6.9") <= v("6.9"));
    assert!(v("7") > v("6.9.9"));
    assert!(v("7") >= v("7"));
    assert!(!(v("7") < v("7")));
    assert!(v("1.0") != v("1"));
    assert!(v("1.0") == v("1.0"));
    assert!(v("01.2") == v("1.2"));
}

#[test]
fn order_is_antisymmetric_and_transitive_on_samples() {
    let samples = ["1", "1.0", "1.0.0", "1.2", "2", "0.9.9", "10.1"];
    for a in samples {
        for b in samples {
            let ab = v(a).partial_cmp(&v(b)).unwrap();
            let ba = v(b).partial_cmp(&v(a)).unwrap();
            assert_eq!(ab, ba.reverse());
            assert_eq!(ab == Ordering::Equal, a == b);
            for c in samples {
                if v(a) <= v(b) && v(b) <= v(c) {
                    assert!(v(a) <= v(c));
                }
            }
        }
    }
}

#[test]
fn dotted_text_reads_back_its_components() {
    let cases: Vec<Vec<u16>> = vec![vec![7, 4, 2], vec![0], vec![65535, 0, 10], vec![1, 20, 300, 4000]];
    for c in cases {
        let text = c.iter().map(|n| n.to_string()).collect::<Vec<String>>().join(".");
        assert_eq!(SemVer::try_from(text.as_str()).unwrap().components(), c);
    }
}
