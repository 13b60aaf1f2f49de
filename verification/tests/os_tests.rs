use worker_lib::os::to_wide_null;

#[test]
fn wide_name_of_ascii() {
    assert_eq!(to_wide_null("Local\\shm"), vec![76, 111, 99, 97, 108, 92, 115, 104, 109, 0]);
}

#[test]
fn wide_name_of_empty_string() {
    assert_eq!(to_wide_null(""), vec![0]);
}

#[test]
fn wide_name_uses_surrogate_pairs() {
    assert_eq!(to_wide_null("a\u{1F600}\u{E9}"), vec![0x61, 0xD83D, 0xDE00, 0xE9, 0]);
    assert_eq!(to_wide_null("\u{10FFFF}"), vec![0xDBFF, 0xDFFF, 0]);
}

#[test]
fn wide_name_matches_std_encoding() {
    let name = "shm-\u{4E2D}\u{1F600}-1";
    let expected: Vec<u16> = name.encode_utf16().chain(Some(0)).collect();
    assert_eq!(to_wide_null(name), expected);
}
