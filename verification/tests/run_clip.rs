use toolgate::run::{poll_step, RunStep};
use toolgate::run::{
    check_program, clip_utf8, head_tail_caps, Error, StreamClipper, TailRing, OUTPUT_CAP_BYTES,
    OUTPUT_HEAD_BYTES, OUTPUT_TAIL_BYTES,
};

#[test]
fn head_tail_caps_default_ratio() {
    let (h, t) = head_tail_caps(OUTPUT_CAP_BYTES);
    assert_eq!(h, OUTPUT_HEAD_BYTES);
    assert_eq!(t, OUTPUT_TAIL_BYTES);
}

#[test]
fn multibyte_straddling_head_tail_cuts() {
    let mut c = StreamClipper::new(4, 4);
    c.push("αβ".as_bytes());
    c.push("γδεζη".as_bytes());
    let s = c.finish();
    assert!(!s.contains('\u{FFFD}'));
    assert!(s.contains("bytes elided"));
}

#[test]
fn clipper_char_boundary_safe() {
    let mut c = StreamClipper::new(4, 4);
    c.push("αβγδ".as_bytes());
    c.push("εζηθ".as_bytes());
    c.push("ι".as_bytes());
    let s = c.finish();
    assert!(s.is_char_boundary(s.len()));
}

fn elided_count(output: &str) -> usize {
    let rest = output.split("... [").nth(1).expect("elision marker");
    let mid = rest.split("] ...").next().expect("elision close");
    mid.strip_suffix(" bytes elided")
        .expect("elided suffix")
        .parse()
        .expect("elided number")
}

fn assert_clip_no_fffd_and_elided(
    head_cap: usize,
    tail_cap: usize,
    prefix: &str,
    ch: char,
    filler: &[u8],
    suffix: &str,
) {
    assert!(!prefix.contains('\u{FFFD}'));
    assert!(!suffix.contains('\u{FFFD}'));
    let mut body = prefix.to_owned();
    body.push(ch);
    body.push_str(&"z".repeat(filler.len()));
    body.push_str(suffix);
    let total = body.as_bytes().len();
    let mut c = StreamClipper::new(head_cap, tail_cap);
    c.push(body.as_bytes());
    let out = c.finish();
    assert!(
        !out.contains('\u{FFFD}'),
        "output had replacement char for scalar {ch:?}: {out:?}"
    );
    assert!(out.contains("bytes elided"));
    let (head_part, tail_and_mid) = out.split_once("... [").expect("split head");
    let (_mid, tail_part) = tail_and_mid.split_once("] ...").expect("split tail");
    let head_kept = head_part.as_bytes().len();
    let tail_kept = tail_part.as_bytes().len();
    assert_eq!(
        elided_count(&out),
        total - head_kept - tail_kept,
        "elided byte count for {ch:?}"
    );
}

#[test]
fn clipper_truncates_inside_multibyte_scalars_without_fffd() {
    assert_clip_no_fffd_and_elided(3, 4, "aa", 'α', b"bbbbbbbbbb", "cc");
    assert_clip_no_fffd_and_elided(3, 4, "aa", '中', b"bbbbbbbbbb", "cc");
    assert_clip_no_fffd_and_elided(3, 4, "aa", '🎉', b"bbbbbbbbbb", "cc");
}

fn clip_parts(out: &str) -> (usize, usize, usize) {
    if !out.contains("bytes elided") {
        let kept = out.as_bytes().len();
        return (kept, 0, 0);
    }
    let (head_part, tail_and_mid) = out.split_once("... [").expect("split head");
    let (mid, tail_part) = tail_and_mid.split_once("] ...").expect("split tail");
    let elided = mid
        .strip_suffix(" bytes elided")
        .expect("elided suffix")
        .parse()
        .expect("elided number");
    (
        head_part.as_bytes().len(),
        tail_part.as_bytes().len(),
        elided,
    )
}

#[test]
fn clipper_property_caps_and_scalar_splits() {
    let scalars: &[char] = &['a', 'α', '中', '🎉', 'z'];
    let mut seq = String::new();
    for _ in 0..6 {
        for ch in scalars {
            seq.push(*ch);
        }
    }
    for split in 0..=seq.len() {
        let body = format!(
            "{}{}",
            seq.get(..split).unwrap_or(""),
            seq.get(split..).unwrap_or("")
        );
        let total = body.as_bytes().len();
        for cap in 0..=64 {
            let (head_cap, tail_cap) = head_tail_caps(cap);
            let mut c = StreamClipper::new(head_cap, tail_cap);
            c.push(body.as_bytes());
            let out = c.finish();
            assert!(
                !out.contains('\u{FFFD}'),
                "cap={cap} split={split} body_len={total}: {out:?}"
            );
            let (head_kept, tail_kept, elided) = clip_parts(&out);
            assert_eq!(
                head_kept + tail_kept + elided,
                total,
                "cap={cap} split={split}"
            );
        }
    }
}

#[test]
fn small_stream_comes_back_whole() {
    let mut c = StreamClipper::new(2, 6);
    c.push("hello".as_bytes());
    c.push("!".as_bytes());
    assert_eq!(c.finish(), "hello!");
    let empty = StreamClipper::new(2, 6);
    assert_eq!(empty.finish(), "");
}

#[test]
fn clip_keeps_head_and_tail_with_exact_count() {
    let mut c = StreamClipper::new(3, 2);
    c.push(b"abcdefghij");
    assert_eq!(c.finish(), "abc... [5 bytes elided] ...ij");
}

#[test]
fn clip_utf8_uses_quarter_head() {
    let body = "0123456789".repeat(2);
    let out = clip_utf8(&body, 8);
    assert_eq!(out, "01... [12 bytes elided] ...456789");
    assert_eq!(clip_utf8("short", 8), "short");
}

#[test]
fn tail_ring_keeps_last_bytes_in_order() {
    let mut r = TailRing::new(3);
    for b in b"abcdef" {
        r.push(*b);
    }
    assert_eq!(r.ordered(), b"def".to_vec());
    let mut z = TailRing::new(0);
    z.push(b'x');
    assert!(z.ordered().is_empty());
}

#[test]
fn empty_program_is_refused() {
    assert_eq!(check_program("  "), Err(Error::EmptyProgram));
    assert_eq!(check_program(""), Err(Error::EmptyProgram));
    assert_eq!(check_program("echo"), Ok(()));
}

#[test]
fn run_error_messages() {
    assert_eq!(Error::EmptyProgram.message(), "invalid input: empty program");
    assert_eq!(Error::Io("gone".into()).message(), "io: gone");
}

#[test]
fn clipped_output_stays_within_budget_plus_marker() {
    let (h, t) = head_tail_caps(1024);
    let mut c = StreamClipper::new(h, t);
    let body = "y\n".repeat(100_000);
    c.push(body.as_bytes());
    let out = c.finish();
    let elided = 200_000 - 1024;
    assert_eq!(out.len(), 1024 + 23 + elided.to_string().len());
    assert!(out.len() <= 1200);
    assert!(out.contains(&format!("... [{elided} bytes elided] ...")));
}

#[test]
fn poll_step_decides_exit_timeout_or_wait() {
    assert_eq!(poll_step(Some(Some(3)), 99_999, 1), RunStep::Exited(3));
    assert_eq!(poll_step(Some(None), 0, 10), RunStep::Exited(-1));
    assert_eq!(poll_step(None, 9_999, 10), RunStep::Wait);
    assert_eq!(poll_step(None, 10_000, 10), RunStep::TimedOut);
    assert_eq!(poll_step(None, 999, 0), RunStep::Wait);
    assert_eq!(poll_step(None, 1_000, 0), RunStep::TimedOut);
}

#[test]
fn small_invalid_stream_comes_back_empty() {
    let mut c = StreamClipper::new(4, 4);
    c.push(&[b'a', 0xff, b'b']);
    assert_eq!(c.finish_or_empty(), "");
    let mut ok = StreamClipper::new(4, 4);
    ok.push("héllo".as_bytes());
    assert_eq!(ok.finish_or_empty(), "héllo");
    let mut long = StreamClipper::new(2, 2);
    long.push(b"ab\xffxyzcd");
    assert_eq!(long.finish_or_empty(), "ab... [4 bytes elided] ...cd");
}
