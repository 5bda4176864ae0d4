use zama_core::transcript::{StreamSource, TranscriptBuilder};

#[test]
fn transcript_keeps_every_line_in_arrival_order() {
    let mut b = TranscriptBuilder::new();
    b.record_line(StreamSource::Stdout, "out 1".to_string());
    b.record_line(StreamSource::Stderr, "err 1".to_string());
    b.record_line(StreamSource::Stdout, "out 2".to_string());
    b.record_line(StreamSource::Stdout, "out 3".to_string());
    b.record_line(StreamSource::Stderr, "err 2".to_string());
    assert!(!b.drained());
    b.record_eof(StreamSource::Stdout);
    assert!(!b.drained());
    b.record_eof(StreamSource::Stderr);
    assert!(b.drained());
    assert_eq!(b.line_count(), 5);
    let outcome = b.finish(Some(0));
    assert!(outcome.exit_success);
    assert_eq!(outcome.exit_code, Some(0));
    assert_eq!(
        outcome.transcript,
        vec!["out 1", "err 1", "out 2", "out 3", "err 2"]
    );
}

#[test]
fn lines_after_one_eof_still_count() {
    let mut b = TranscriptBuilder::new();
    b.record_line(StreamSource::Stdout, "a".to_string());
    b.record_eof(StreamSource::Stdout);
    b.record_line(StreamSource::Stderr, "b".to_string());
    b.record_eof(StreamSource::Stderr);
    assert!(b.drained());
    assert_eq!(b.line_count(), 2);
}

#[test]
fn nonzero_exit_is_not_success() {
    let mut b = TranscriptBuilder::new();
    b.record_eof(StreamSource::Stdout);
    b.record_eof(StreamSource::Stderr);
    let outcome = b.finish(Some(1));
    assert!(!outcome.exit_success);
    assert_eq!(outcome.exit_code, Some(1));
}

#[test]
fn signal_termination_is_not_success() {
    let mut b = TranscriptBuilder::new();
    b.record_eof(StreamSource::Stderr);
    b.record_eof(StreamSource::Stdout);
    let outcome = b.finish(None);
    assert!(!outcome.exit_success);
    assert_eq!(outcome.exit_code, None);
    assert!(outcome.transcript.is_empty());
}
