use toolgate::edit::{apply_edit, check_old, edit, Error, DIFF_CAP_LINES};
use toolgate::read;

#[test]
fn diff_header_line_one_change() {
    let (hit, _) = edit("a.txt", b"first\nsecond\nthird\nfourth\n", "first", "FIRST", false)
        .expect("edit");
    assert_eq!(hit.diff[0], "@@ -1,4 +1,4 @@");
}

#[test]
fn diff_header_last_line_no_trailing_newline() {
    let (hit, _) = edit("a.txt", b"one\ntwo\nthree", "three", "THREE", false).expect("edit");
    assert_eq!(hit.diff[0], "@@ -1,3 +1,3 @@");
}

#[test]
fn edit_replaces_once_and_returns_diff() {
    let (hit, updated) = edit("a.txt", b"alpha\nbeta\ngamma\n", "beta", "BETA", false).expect("edit");
    assert_eq!(hit.applied, 1);
    assert_eq!(updated, "alpha\nBETA\ngamma\n");
    assert!(hit.diff.iter().any(|l| l == "-beta"));
    assert!(hit.diff.iter().any(|l| l == "+BETA"));
    assert_eq!((hit.start, hit.end), (2, 2));
    assert_eq!(hit.path, "a.txt");
}

#[test]
fn crlf_preserved_on_edit() {
    let (hit, updated) =
        edit("a.txt", b"alpha\r\nbeta\r\ngamma\r\n", "beta", "BETA", false).expect("edit");
    assert_eq!(hit.applied, 1);
    assert_eq!(updated.as_bytes(), b"alpha\r\nBETA\r\ngamma\r\n");
}

#[test]
fn crlf_old_string_matches() {
    let (_, updated) = edit("a.txt", b"x\r\ny\r\n", "x\r\ny", "z", false).expect("edit");
    assert_eq!(updated.as_bytes(), b"z\r\n");
}

#[test]
fn bom_preserved_utf8_edit() {
    let (_, updated) = edit("a.txt", &[0xEF, 0xBB, 0xBF, b'h', b'i', b'\n'], "hi", "yo", false)
        .expect("edit");
    assert_eq!(updated.as_bytes(), b"\xEF\xBB\xBFyo\n");
}

#[test]
fn non_utf8_refused_and_unchanged() {
    let err = edit("a.bin", &[0xff, 0xfe, b'a'], "a", "b", false).expect_err("utf8");
    assert!(matches!(err, Error::Read(read::Error::NotUtf8(_))));
}

#[test]
fn overlapping_and_adjacent_applied_counts() {
    let (hit, updated) = edit("a.txt", b"aba\n", "a", "x", true).expect("edit");
    assert_eq!(hit.applied, 2);
    assert_eq!(updated, "xbx\n");
    let (hit, _) = edit("b.txt", b"aa\n", "a", "b", true).expect("edit");
    assert_eq!(hit.applied, 2);
    let (hit, updated) = edit("c.txt", b"aaa\n", "aa", "b", true).expect("edit");
    assert_eq!(hit.applied, 1);
    assert_eq!(updated, "ba\n");
}

#[test]
fn ambiguous_match_needs_all() {
    let err = edit("a.txt", b"x\nx\nx\n", "x", "y", false).expect_err("ambiguous");
    assert!(matches!(err, Error::NoMatch(_)));
    assert_eq!(
        err.message(),
        "old text matches 3 times; pass --all or narrow it"
    );
    let (hit, updated) = edit("a.txt", b"x\nx\nx\n", "x", "y", true).expect("edit");
    assert_eq!(hit.applied, 3);
    assert_eq!(updated, "y\ny\ny\n");
}

#[test]
fn empty_and_missing_old_text_refused() {
    let err = edit("a.txt", &[0x00], "", "y", false).expect_err("empty");
    assert_eq!(err.message(), "old text must not be empty");
    assert!(check_old("").is_err());
    assert!(check_old("x").is_ok());
    let err = edit("a.txt", b"abc\n", "zz", "y", false).expect_err("missing");
    assert_eq!(err.message(), "old text not found");
}

#[test]
fn read_errors_show_through() {
    let err = edit("b.bin", &[0x00, 0x01], "a", "b", false).expect_err("binary");
    assert!(matches!(err, Error::Read(read::Error::Binary(_))));
    assert_eq!(err.message(), "refusing binary file: b.bin");
}

#[test]
fn diff_has_context_and_exact_rows() {
    let before = "1\n2\n3\n4\n5\n6\n7\n8\n9\n";
    let (hit, _) = apply_edit("f", before, "5", "five", false).expect("edit");
    assert_eq!(
        hit.diff,
        vec!["@@ -2,7 +2,7 @@", " 2", " 3", " 4", "-5", "+five", " 6", " 7", " 8"]
    );
    assert_eq!((hit.start, hit.end), (5, 5));
}

#[test]
fn diff_is_capped_with_marker() {
    let before: String = (0..100).map(|i| format!("x{i}\n")).collect();
    let (hit, updated) = apply_edit("f", &before, "x", "y", true).expect("edit");
    assert_eq!(hit.applied, 100);
    assert_eq!(hit.diff.len(), DIFF_CAP_LINES);
    assert_eq!(hit.diff[DIFF_CAP_LINES - 1], "... (diff truncated)");
    assert_eq!(hit.diff[DIFF_CAP_LINES - 2], "-x57");
    assert!(updated.starts_with("y0\ny1\n"));
}

#[test]
fn edit_that_changes_nothing_has_empty_span() {
    let (hit, updated) = apply_edit("f", "a\nb\n", "a", "a", false).expect("edit");
    assert_eq!(updated, "a\nb\n");
    assert_eq!(hit.diff, vec!["@@ -1,2 +1,2 @@", " a", " b"]);
    assert_eq!((hit.start, hit.end), (3, 2));
}

#[test]
fn replacing_an_absent_text_changes_nothing() {
    let s: Vec<char> = "abcabc".chars().collect();
    let zz: Vec<char> = "zz".chars().collect();
    let y: Vec<char> = "y".chars().collect();
    assert_eq!(toolgate::edit::count_occurrences(&s, &zz), 0);
    assert_eq!(toolgate::edit::replace_occurrences(&s, &zz, &y), s);
    let bc: Vec<char> = "bc".chars().collect();
    assert_eq!(toolgate::edit::count_occurrences(&s, &bc), 2);
    let out: String = toolgate::edit::replace_occurrences(&s, &bc, &y).into_iter().collect();
    assert_eq!(out, "ayay");
}

#[test]
fn diff_of_exactly_the_cap_is_whole() {
    let mut before: String = (0..29).map(|i| format!("x{i}\n")).collect();
    before.push_str("end\n");
    let (hit, _) = apply_edit("f", &before, "x", "y", true).expect("edit");
    assert_eq!(hit.diff.len(), DIFF_CAP_LINES);
    assert_eq!(hit.diff[0], "@@ -1,30 +1,30 @@");
    assert_eq!(hit.diff[DIFF_CAP_LINES - 1], " end");
}
