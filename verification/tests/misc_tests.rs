use tokio_lab::cli::verbosity_message;
use tokio_lab::echo::{echo_reply, ReadOutcome};

#[test]
fn verbosity_messages() {
    assert_eq!(verbosity_message(0), "No verbose info");
    assert_eq!(verbosity_message(1), "Some verbose info");
    assert_eq!(verbosity_message(2), "Tons of verbose info");
    assert_eq!(verbosity_message(3), "Don't be crazy");
    assert_eq!(verbosity_message(u64::MAX), "Don't be crazy");
}

#[test]
fn echo_sends_back_what_was_read() {
    let mut buf = vec![0u8; 1024];
    buf[..5].copy_from_slice(b"hello");
    assert_eq!(echo_reply(&buf, ReadOutcome::Received(5)), Some(b"hello".to_vec()));
    assert_eq!(echo_reply(&buf, ReadOutcome::Received(1024)).map(|v| v.len()), Some(1024));
}

#[test]
fn echo_closes_on_eof_or_error() {
    let buf = vec![1u8; 16];
    assert_eq!(echo_reply(&buf, ReadOutcome::Received(0)), None);
    assert_eq!(echo_reply(&buf, ReadOutcome::Failed), None);
}
