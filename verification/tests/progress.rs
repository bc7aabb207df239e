use altc::logs::{ProgressReader, MAX_PENDING};
use altc::progress::{parse_progress, RunnerUpdate};

#[test]
fn parses_percent_and_failure() {
    assert!(matches!(
        parse_progress("ALTC-PROGRESS:45"),
        Some(RunnerUpdate::Percent(45))
    ));
    assert!(matches!(
        parse_progress("\u{1}\u{0}junk ALTC-PROGRESS:100\n"),
        Some(RunnerUpdate::Percent(100))
    ));
    match parse_progress("ALTC-PROGRESS:0:FAILED:game files not found") {
        Some(RunnerUpdate::Failed(r)) => assert_eq!(r, "game files not found"),
        _ => panic!("expected failure"),
    }
    assert!(parse_progress("nothing here").is_none());
}

#[test]
fn progress_above_a_hundred_is_capped() {
    assert!(matches!(parse_progress("ALTC-PROGRESS:250"), Some(RunnerUpdate::Percent(100))));
    assert!(parse_progress("ALTC-PROGRESS:999").is_none());
}

#[test]
fn lines_split_across_chunks_are_read_once_whole() {
    let mut r = ProgressReader::new();
    let first = r.feed(b"\x01\x00\x00\x00\x00\x00\x00\x10ALTC-PRO");
    assert!(first.is_empty());
    let second = r.feed(b"GRESS:45\nnoise\nALTC-PROGRESS:60");
    assert_eq!(second.len(), 1);
    assert!(matches!(second[0], RunnerUpdate::Percent(45)));
    let third = r.feed(b"\n");
    assert_eq!(third.len(), 1);
    assert!(matches!(third[0], RunnerUpdate::Percent(60)));
}

#[test]
fn a_runaway_partial_line_is_dropped() {
    let mut r = ProgressReader::new();
    let mut junk = vec![b'x'; MAX_PENDING];
    junk.extend_from_slice(b"ALTC-PROGRESS:");
    assert!(r.feed(&junk).is_empty());
    // The dropped text does not prefix the next line.
    assert!(r.feed(b"9\n").is_empty());
    let next = r.feed(b"ALTC-PROGRESS:7\n");
    assert!(matches!(next[0], RunnerUpdate::Percent(7)));
}

#[test]
fn several_lines_in_one_chunk_report_in_order() {
    let mut r = ProgressReader::new();
    let out = r.feed(b"ALTC-PROGRESS:10\nALTC-PROGRESS:0:FAILED:no disk\n");
    assert_eq!(out.len(), 2);
    assert!(matches!(out[0], RunnerUpdate::Percent(10)));
    match &out[1] {
        RunnerUpdate::Failed(reason) => assert_eq!(reason, "no disk"),
        _ => panic!("expected failure"),
    }
}
