use rhost::transport::process::{Capture, Keep, Recorder, Stream, Tap, TAIL_KEEP};

#[test]
fn a_tap_can_count_without_keeping_anything() {
    let mut quiet = Capture::new(0, Keep::Nothing);
    quiet.observe(b"lots of bytes");
    assert!(quiet.body().is_empty());
    assert_eq!(quiet.total(), 13);
}

#[test]
fn a_prefix_capture_drops_the_tail_but_still_counts_it() {
    let mut capture = Capture::new(8, Keep::Prefix);
    capture.observe(&[b'y'; 40]);
    assert_eq!(capture.total(), 40);
    assert_eq!(capture.body(), vec![b'y'; 8]);
}

#[test]
fn a_buffered_recorder_keeps_counts() {
    let mut recorder = Recorder::new(0);
    let forwarded = recorder.feed(b"abc");
    assert!(forwarded.is_empty());
    assert_eq!(recorder.total(), 3);
    assert_eq!(recorder.body(), b"abc");
}

#[test]
fn a_huge_output_is_bounded_but_fully_counted() {
    let mut capture = Capture::new(16, Keep::PrefixAndMarkerTail);
    for _ in 0..1000 {
        capture.observe(&[b'x'; 64]);
    }
    assert_eq!(capture.total(), 64_000);
    let body = capture.body();
    assert_eq!(body.len(), 16 + TAIL_KEEP);
    assert!(body.starts_with(&[b'x'; 16]));
}

#[test]
fn output_just_over_the_cap_arrives_whole() {
    let mut capture = Capture::new(4, Keep::PrefixAndMarkerTail);
    capture.observe(b"ab");
    capture.observe(b"cdefgh");
    assert_eq!(capture.body(), b"abcdefgh");
    assert_eq!(capture.total(), 8);
}

#[test]
fn the_tail_keeps_the_last_bytes_seen() {
    let mut capture = Capture::new(2, Keep::PrefixAndMarkerTail);
    let mut all = Vec::new();
    for round in 0..300u32 {
        let chunk = [(round % 251) as u8, 7];
        all.extend_from_slice(&chunk);
        capture.observe(&chunk);
    }
    let body = capture.body();
    assert_eq!(&body[..2], &all[..2]);
    assert_eq!(&body[2..], &all[all.len() - TAIL_KEEP..]);
}

#[test]
fn a_tap_forwards_every_byte_and_keeps_a_prefix() {
    let mut tap = Tap::new(3, Keep::Prefix);
    assert_eq!(tap.feed(b"hello"), b"hello");
    assert!(tap.finish().is_empty());
    assert_eq!(tap.body(), b"hel");
    assert_eq!(tap.total(), 5);
}

#[test]
fn a_limited_recorder_keeps_its_prefix_and_the_marker_tail() {
    let mut recorder = Recorder::new(2);
    assert!(recorder.feed(b"xyz").is_empty());
    assert!(recorder.finish().is_empty());
    assert_eq!(recorder.body(), b"xyz");
    assert!(recorder.feed(&[b'q'; 300]).is_empty());
    assert_eq!(recorder.total(), 303);
    let body = recorder.body();
    assert_eq!(body.len(), 2 + TAIL_KEEP);
    assert_eq!(&body[..2], b"xy");
    assert!(body[2..].iter().all(|b| *b == b'q'));
}
