use warpbits_loader::filename::get_base_name;
use warpbits_loader::filename::is_first_volume;
use warpbits_loader::filename::transform_filename;

#[test]
fn transform_first_segment() {
    assert_eq!(transform_filename("pkg--n1.globby").unwrap(), "pkg.archive.001");
}

#[test]
fn transform_pads_to_three_digits() {
    assert_eq!(transform_filename("pkg--n42.globby").unwrap(), "pkg.archive.042");
}

#[test]
fn transform_keeps_wide_indexes() {
    assert_eq!(transform_filename("pkg--n1234.globby").unwrap(), "pkg.archive.1234");
}

#[test]
fn transform_reads_leading_zeros() {
    assert_eq!(transform_filename("pkg--n042.globby").unwrap(), "pkg.archive.042");
}

#[test]
fn transform_rejects_plain_file() {
    assert!(transform_filename("plainfile.txt").is_none());
}

#[test]
fn transform_rejects_missing_digits() {
    assert!(transform_filename("pkg--n.globby").is_none());
}

#[test]
fn transform_rejects_missing_marker() {
    assert!(transform_filename("pkg-n1.globby").is_none());
}

#[test]
fn transform_rejects_bare_suffix() {
    assert!(transform_filename(".globby").is_none());
}

#[test]
fn transform_allows_empty_base() {
    assert_eq!(transform_filename("--n5.globby").unwrap(), ".archive.005");
}

#[test]
fn base_name_of_segment() {
    assert_eq!(get_base_name("pkg.archive.001").unwrap(), "pkg");
}

#[test]
fn base_name_without_marker_is_whole_name() {
    assert_eq!(get_base_name("readme.txt").unwrap(), "readme.txt");
}

#[test]
fn base_name_cuts_at_first_marker() {
    assert_eq!(get_base_name("a.archive.001.archive.002").unwrap(), "a");
}

#[test]
fn first_volume_is_recognized() {
    assert!(is_first_volume("pkg.archive.001"));
}

#[test]
fn later_volume_is_not_first() {
    assert!(!is_first_volume("pkg.archive.002"));
}

#[test]
fn hidden_file_is_not_first_volume() {
    assert!(!is_first_volume(".001"));
}

#[test]
fn short_stem_is_first_volume() {
    assert!(is_first_volume("x.001"));
}
