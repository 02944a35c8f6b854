use warpbits_loader::manifest::build_file_url;
use warpbits_loader::manifest::parse_file_list;

#[test]
fn file_list_splits_lines_in_order() {
    let files = parse_file_list("alpha\nbeta\ngamma");
    assert_eq!(files, vec!["alpha", "beta", "gamma"]);
}

#[test]
fn file_list_trims_and_drops_blank_lines() {
    let files = parse_file_list("  a \n\n   \n b\n");
    assert_eq!(files, vec!["a", "b"]);
}

#[test]
fn file_list_handles_crlf_endings() {
    let files = parse_file_list("a\r\nb\r\n");
    assert_eq!(files, vec!["a", "b"]);
}

#[test]
fn file_list_of_empty_body_is_empty() {
    let files = parse_file_list("");
    assert!(files.is_empty());
}

#[test]
fn file_list_of_single_unterminated_line() {
    let files = parse_file_list("only");
    assert_eq!(files, vec!["only"]);
}

#[test]
fn url_keeps_trailing_slash() {
    assert_eq!(build_file_url("http://host/repo/", "file.bin"), "http://host/repo/file.bin");
}

#[test]
fn url_appends_separator_when_missing() {
    assert_eq!(build_file_url("http://host/repo", "file.bin"), "http://host/repo\\file.bin");
}
