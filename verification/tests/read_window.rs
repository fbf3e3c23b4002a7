use toolgate::read::{
    apply_char_budget, count_lines, format_numbered_lines, load_bytes, pair_range, read, Error,
    LoadedFile, MAX_LINE_CHARS, TRUNCATED_LINE_MARKER, WHOLE_FILE_LIMIT_LINES,
};

fn numbered(n: u64) -> String {
    (1..=n)
        .map(|i| format!("line {i}"))
        .collect::<Vec<_>>()
        .join("\n")
        + "\n"
}

fn loaded(name: &str, text: &str) -> LoadedFile {
    load_bytes(name, text.as_bytes(), false).expect("load")
}

#[test]
fn line_returns_window_clamped_to_file() {
    let f = loaded("a.txt", &numbered(500));
    let hit = read(&f, Some(250), 100, None, WHOLE_FILE_LIMIT_LINES).expect("read");
    assert_eq!((hit.start, hit.end, hit.total), (150, 350, 500));
    assert_eq!(hit.text.len(), 201);
    let top = read(&f, Some(1), 100, None, WHOLE_FILE_LIMIT_LINES).expect("read");
    assert_eq!((top.start, top.end), (1, 101));
    let bottom = read(&f, Some(500), 100, None, WHOLE_FILE_LIMIT_LINES).expect("read");
    assert_eq!((bottom.start, bottom.end), (400, 500));
}

#[test]
fn radius_clamped_to_max() {
    let f = loaded("a.txt", &numbered(1000));
    let hit = read(&f, Some(500), 500, None, WHOLE_FILE_LIMIT_LINES).expect("read");
    assert_eq!((hit.start, hit.end), (300, 700));
}

#[test]
fn small_files_read_whole_large_need_range() {
    let small = loaded("small.txt", &numbered(100));
    let big = loaded("big.txt", &numbered(500));
    let hit = read(&small, None, 100, None, WHOLE_FILE_LIMIT_LINES).expect("read");
    assert_eq!((hit.start, hit.end), (1, 100));
    let err = read(&big, None, 100, None, WHOLE_FILE_LIMIT_LINES).expect_err("must refuse");
    assert!(matches!(err, Error::RangeRequired { lines: 500 }));
    let hit = read(&big, None, 100, Some((10, 20)), WHOLE_FILE_LIMIT_LINES).expect("read");
    assert_eq!((hit.start, hit.end), (10, 20));
    assert_eq!(hit.text.len(), 11);
}

#[test]
fn range_over_limit_refused() {
    let f = loaded("a.txt", &numbered(500));
    let err = read(&f, None, 100, Some((1, 401)), WHOLE_FILE_LIMIT_LINES).expect_err("span");
    assert!(matches!(
        err,
        Error::RangeTooLarge {
            span: 401,
            max: WHOLE_FILE_LIMIT_LINES
        }
    ));
    assert!(err.message().contains("max is 400"));
}

#[test]
fn char_budget_stops_early_with_true_end() {
    let long = "x".repeat(1000);
    let body = (1..=80)
        .map(|i| format!("line {i} {long}"))
        .collect::<Vec<_>>()
        .join("\n");
    let f = loaded("a.txt", &body);
    let hit = read(&f, None, 100, None, WHOLE_FILE_LIMIT_LINES).expect("read");
    assert!(hit.end < hit.total);
    assert_eq!(hit.text.len() as u64, hit.end - hit.start + 1);
}

#[test]
fn long_line_truncated_not_refused() {
    let long = "a".repeat(MAX_LINE_CHARS + 100);
    let content = format!("short\n{long}\n");
    let f = loaded("a.txt", &content);
    let hit = read(&f, None, 100, None, WHOLE_FILE_LIMIT_LINES).expect("read");
    assert_eq!(hit.text.len(), 2);
    assert!(hit.text[1].ends_with(TRUNCATED_LINE_MARKER));
    assert_eq!(hit.text[1].len(), MAX_LINE_CHARS + TRUNCATED_LINE_MARKER.len());
}

#[test]
fn format_numbered_lines_aligns() {
    let lines = vec!["a".to_owned(), "b".to_owned()];
    let out = format_numbered_lines(41, &lines);
    assert_eq!(out, vec!["41|a", "42|b"]);
}

#[test]
fn numbered_lines_pad_to_last_number() {
    let lines: Vec<String> = (0..3).map(|i| format!("x{i}")).collect();
    assert_eq!(format_numbered_lines(9, &lines), vec![" 9|x0", "10|x1", "11|x2"]);
    assert!(format_numbered_lines(1, &[]).is_empty());
}

#[test]
fn escapes_and_binaries_refused() {
    let err = load_bytes("b.bin", &[0x00, 0x01], false).expect_err("binary");
    assert!(matches!(err, Error::Binary(_)));
    let f = loaded("a.txt", "hi\n");
    let err = read(&f, Some(99), 100, None, WHOLE_FILE_LIMIT_LINES).expect_err("range");
    assert!(matches!(err, Error::Io(_)));
    assert_eq!(err.message(), "io: line 99 out of range 1..=1");
}

#[test]
fn load_refuses_bad_utf8_and_generated_files() {
    let err = load_bytes("a.bin", &[0xff, 0xfe, b'a'], false).expect_err("utf8");
    assert!(matches!(err, Error::NotUtf8(ref p) if p == "a.bin"));
    let long = "a".repeat(MAX_LINE_CHARS + 1);
    assert!(load_bytes("g.txt", long.as_bytes(), false).is_ok());
    let err = load_bytes("g.txt", long.as_bytes(), true).expect_err("generated");
    assert_eq!(err.message(), "refusing generated/data file: g.txt");
}

#[test]
fn empty_file_reads_as_nothing() {
    let f = loaded("e.txt", "");
    assert_eq!(f.total_lines, 0);
    let hit = read(&f, Some(5), 100, None, WHOLE_FILE_LIMIT_LINES).expect("read");
    assert_eq!((hit.start, hit.end, hit.total), (1, 0, 0));
    assert!(hit.text.is_empty());
}

#[test]
fn range_outside_file_is_io_error() {
    let f = loaded("a.txt", &numbered(10));
    let err = read(&f, None, 100, Some((5, 11)), WHOLE_FILE_LIMIT_LINES).expect_err("range");
    assert_eq!(err.message(), "io: range 5-11 out of 1..=10");
    let err = read(&numbered_file(), None, 100, None, 3).expect_err("whole");
    assert_eq!(
        err.message(),
        "refusing whole-file read of 10 lines; pass --start/--end or --line"
    );
}

fn numbered_file() -> LoadedFile {
    loaded("a.txt", &numbered(10))
}

#[test]
fn count_lines_follows_str_lines() {
    assert_eq!(count_lines(""), 0);
    assert_eq!(count_lines("a\n"), 1);
    assert_eq!(count_lines("a\r\nb"), 2);
    assert_eq!(count_lines("\n\n"), 2);
}

#[test]
fn char_budget_keeps_first_line_always() {
    let big = "y".repeat(60_000);
    let (end, kept) = apply_char_budget(7, 9, vec![big.clone(), "z".into(), "w".into()]);
    assert_eq!(end, 7);
    assert_eq!(kept, vec![big]);
    let (end, kept) = apply_char_budget(3, 3, Vec::new());
    assert_eq!(end, 3);
    assert!(kept.is_empty());
}

#[test]
fn read_hit_header_and_range_pairing() {
    let f = loaded("a.txt", &numbered(3));
    let hit = read(&f, None, 100, None, WHOLE_FILE_LIMIT_LINES).expect("read");
    assert_eq!(hit.header(), "a.txt:1-3 of 3 lines");
    assert_eq!(pair_range(None, None), Some(None));
    assert_eq!(pair_range(Some(1), Some(4)), Some(Some((1, 4))));
    assert_eq!(pair_range(Some(1), None), None);
}
