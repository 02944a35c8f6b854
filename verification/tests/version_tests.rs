use warpbits_loader::text::Order;
use warpbits_loader::version::Version;

#[test]
fn parse_simple_version() {
    let v = Version::parse("2024-01-15--3").unwrap();
    assert_eq!(v.date, "2024-01-15");
    assert_eq!(v.iteration, 3);
}

#[test]
fn parse_rejects_missing_separator() {
    assert!(Version::parse("not-a-version").is_err());
}

#[test]
fn parse_rejects_non_numeric_iteration() {
    assert!(Version::parse("2024-01-15--x").is_err());
}

#[test]
fn parse_rejects_negative_iteration() {
    assert!(Version::parse("2024-01-15---3").is_err());
}

#[test]
fn parse_rejects_empty_iteration() {
    assert!(Version::parse("2024-01-15--").is_err());
}

#[test]
fn parse_rejects_three_parts() {
    assert!(Version::parse("a--b--3").is_err());
}

#[test]
fn parse_rejects_huge_iteration() {
    assert!(Version::parse("2024-01-15--99999999999999999999").is_err());
}

#[test]
fn parse_trims_whitespace() {
    let v = Version::parse("  2024-01-15--3\r\n").unwrap();
    assert_eq!(v.date, "2024-01-15");
    assert_eq!(v.iteration, 3);
}

#[test]
fn parse_accepts_leading_zeros() {
    let v = Version::parse("2024-01-15--003").unwrap();
    assert_eq!(v.iteration, 3);
}

#[test]
fn serialize_version() {
    let v = Version { date: String::from("2024-01-15"), iteration: 3 };
    assert_eq!(v.verdate_to_string(), "2024-01-15--3");
}

#[test]
fn round_trip_version() {
    let v = Version { date: String::from("2024-01-15"), iteration: 7 };
    let text = v.verdate_to_string();
    let back = Version::parse(&text).unwrap();
    assert!(back == v);
}

#[test]
fn compare_earlier_date_is_less() {
    let a = Version { date: String::from("2024-01-15"), iteration: 3 };
    let b = Version { date: String::from("2024-02-01"), iteration: 0 };
    assert_eq!(a.compare(&b), Order::Less);
    assert_eq!(b.compare(&a), Order::Greater);
}

#[test]
fn compare_same_date_by_iteration() {
    let a = Version { date: String::from("2024-01-15"), iteration: 3 };
    let b = Version { date: String::from("2024-01-15"), iteration: 4 };
    assert_eq!(a.compare(&b), Order::Less);
    assert_eq!(b.compare(&a), Order::Greater);
}

#[test]
fn compare_equal_versions() {
    let a = Version { date: String::from("2024-01-15"), iteration: 3 };
    let b = Version { date: String::from("2024-01-15"), iteration: 3 };
    assert_eq!(a.compare(&b), Order::Equal);
    assert!(a == b);
}
