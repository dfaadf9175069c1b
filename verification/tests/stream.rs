use rhost::domain::InvocationToken;
use rhost::transport::protocol::stream::CompletionStream;
use rhost::transport::protocol::Separator;

fn run_chunks(chunks: &[&[u8]], limit: usize) -> (Vec<u8>, u64, Option<i32>, Vec<u8>) {
    let nonce = InvocationToken::new("d".repeat(32)).unwrap_or_else(|e| panic!("{e}"));
    let mut forwarded = Vec::new();
    let mut stream = CompletionStream::new(Separator::Nul, &nonce, Some(limit));
    for chunk in chunks {
        forwarded.extend(stream.feed(chunk));
    }
    forwarded.extend(stream.finish());
    let captured = stream.body();
    (captured, stream.total(), stream.completion(), forwarded)
}

#[test]
fn markers_never_reach_the_human_stream() {
    let nonce = "d".repeat(32);
    let (captured, total, completion, forwarded) = run_chunks(
        &[
            b"profile noise\n",
            format!("\x00__RHOST_BEGIN_{nonce}__\nhello").as_bytes(),
            format!(" world\x00__RHOST_DONE_{nonce}__:3\n").as_bytes(),
        ],
        0,
    );
    assert_eq!(forwarded, b"hello world");
    assert_eq!(captured, b"hello world");
    assert_eq!(total, 11);
    assert_eq!(completion, Some(3));
}

#[test]
fn a_marker_split_across_reads_is_still_observed() {
    let nonce = "d".repeat(32);
    let begin = format!("\x00__RHOST_BEGIN_{nonce}__\n").into_bytes();
    let done = format!("\x00__RHOST_DONE_{nonce}__:0\n").into_bytes();
    let mut chunks: Vec<Vec<u8>> = Vec::new();
    chunks.push(b"noise".to_vec());
    chunks.extend(begin.chunks(3).map(<[u8]>::to_vec));
    chunks.push(b"payload".to_vec());
    chunks.extend(done.chunks(4).map(<[u8]>::to_vec));
    let refs: Vec<&[u8]> = chunks.iter().map(Vec::as_slice).collect();
    let (captured, total, completion, forwarded) = run_chunks(&refs, 0);
    assert_eq!(forwarded, b"payload");
    assert_eq!(captured, b"payload");
    assert_eq!(total, 7);
    assert_eq!(completion, Some(0));
}

#[test]
fn an_unmatched_run_reports_no_completion() {
    let (captured, total, completion, forwarded) = run_chunks(&[b"partial output"], 0);
    assert!(captured.is_empty() && forwarded.is_empty() && completion.is_none());
    assert_eq!(total, 0);
}

#[test]
fn a_truncated_capture_still_reports_source_bytes() {
    let nonce = "d".repeat(32);
    let mut head = format!("\0__RHOST_BEGIN_{nonce}__\n").into_bytes();
    head.extend_from_slice(&[b'x'; 5_000]);
    let tail = format!("\0__RHOST_DONE_{nonce}__:9\n").into_bytes();
    let (captured, total, completion, forwarded) = run_chunks(&[&head, &tail], 128);
    assert_eq!(captured.len(), 128);
    assert_eq!(forwarded.len(), 5_000);
    assert_eq!(total, 5_000);
    assert_eq!(completion, Some(9));
}

#[test]
fn a_stream_that_keeps_nothing_still_counts_and_forwards() {
    let nonce = InvocationToken::new("d".repeat(32)).unwrap_or_else(|e| panic!("{e}"));
    let mut stream = CompletionStream::new(Separator::Nul, &nonce, None);
    let mut forwarded = stream.feed(format!("\x00__RHOST_BEGIN_{}__\nabc", "d".repeat(32)).as_bytes());
    forwarded.extend(stream.feed(format!("\x00__RHOST_DONE_{}__:-1\n", "d".repeat(32)).as_bytes()));
    forwarded.extend(stream.finish());
    assert!(stream.started());
    assert_eq!(forwarded, b"abc");
    assert!(stream.body().is_empty());
    assert_eq!(stream.total(), 3);
    assert_eq!(stream.completion(), Some(-1));
}

#[test]
fn a_begin_marker_without_completion_forwards_everything_after_it() {
    let nonce = "d".repeat(32);
    let (captured, total, completion, forwarded) =
        run_chunks(&[format!("\x00__RHOST_BEGIN_{nonce}__\nhalf").as_bytes()], 0);
    assert_eq!(forwarded, b"half");
    assert_eq!(captured, b"half");
    assert_eq!(total, 4);
    assert_eq!(completion, None);
}

#[test]
fn reads_cut_differently_give_the_same_result() {
    let nonce = "d".repeat(32);
    let mut whole = b"noise".to_vec();
    whole.extend(format!("\x00__RHOST_BEGIN_{nonce}__\n").into_bytes());
    whole.extend_from_slice(b"payload");
    whole.extend(format!("\x00__RHOST_DONE_{nonce}__:0\n").into_bytes());
    let at_once = run_chunks(&[whole.as_slice()], 64);
    for size in [1usize, 2, 3, 5, 7, 13] {
        let pieces: Vec<&[u8]> = whole.chunks(size).collect();
        assert_eq!(run_chunks(&pieces, 64), at_once);
    }
    assert_eq!(at_once, (b"payload".to_vec(), 7, Some(0), b"payload".to_vec()));
}
