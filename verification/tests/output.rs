//! Exit statuses of results that were written, or could not be.
use std::io::{self, Write};

use rundelta::io::{IoError, IoKind};
use rundelta::model::{CaptureCompleteness, CaptureState, RecordResult};
use rundelta::output::{output_text, record_output, record_text, write_output, OutputError};

struct Sink {
    fail_flush: bool,
    kind: io::ErrorKind,
}

impl Write for Sink {
    fn write(&mut self, bytes: &[u8]) -> io::Result<usize> {
        if self.fail_flush {
            Ok(bytes.len().min(2))
        } else {
            Err(self.kind.into())
        }
    }
    fn flush(&mut self) -> io::Result<()> {
        Err(self.kind.into())
    }
}

fn failure(error: io::Error) -> IoError {
    IoError {
        kind: match error.kind() {
            io::ErrorKind::BrokenPipe => IoKind::BrokenPipe,
            io::ErrorKind::PermissionDenied => IoKind::PermissionDenied,
            _ => IoKind::Other,
        },
        code: error.raw_os_error(),
        message: error.to_string(),
    }
}

fn send<W: Write>(out: &mut W, text: &str) -> Option<IoError> {
    out.write_all(text.as_bytes())
        .and_then(|()| out.flush())
        .err()
        .map(failure)
}

fn write<W: Write>(out: &mut W, text: &str, code: i32, stream: &str) -> Result<i32, OutputError> {
    write_output(send(out, &output_text(text)), code, stream)
}

fn write_record<W: Write>(out: &mut W, result: &RecordResult) -> Result<i32, OutputError> {
    record_output(send(out, &record_text(result)), result)
}

fn finalized_record(code: i32) -> RecordResult {
    RecordResult {
        id: "abc-123".into(),
        name: "test".into(),
        state: CaptureState::Completed,
        completeness: CaptureCompleteness::CompleteForSupportedEvents,
        event_count: 1,
        warnings: vec![],
        evidence_dir: "/records/runs/abc-123".into(),
        cli_exit: code,
    }
}

#[test]
fn broken_pipe_preserves_computed_status_including_errors() {
    for code in [0, 1, 2, 3, 125, 130, 144] {
        for fail_flush in [false, true] {
            assert_eq!(
                write(
                    &mut Sink {
                        fail_flush,
                        kind: io::ErrorKind::BrokenPipe
                    },
                    "report",
                    code,
                    "stdout",
                )
                .unwrap(),
                code
            );
        }
    }
}

#[test]
fn other_write_and_flush_errors_retain_context() {
    for fail_flush in [false, true] {
        let e = write(
            &mut Sink {
                fail_flush,
                kind: io::ErrorKind::PermissionDenied,
            },
            "report",
            0,
            "stdout",
        )
        .unwrap_err();
        assert!(e.message().contains("stdout"));
        assert_eq!(e.source.kind, IoKind::PermissionDenied);
    }
    let mut bytes = vec![];
    write(&mut bytes, "one\n", 0, "stdout").unwrap();
    assert_eq!(bytes, b"one\n");
}

#[test]
fn record_stderr_broken_pipe_preserves_the_business_status() {
    for code in [0, 125, 130, 144] {
        for fail_flush in [false, true] {
            assert_eq!(
                write_record(
                    &mut Sink {
                        fail_flush,
                        kind: io::ErrorKind::BrokenPipe,
                    },
                    &finalized_record(code),
                )
                .unwrap(),
                code
            );
        }
    }
}

#[test]
fn record_stderr_errors_identify_the_committed_record() {
    for fail_flush in [false, true] {
        let error = write_record(
            &mut Sink {
                fail_flush,
                kind: io::ErrorKind::PermissionDenied,
            },
            &finalized_record(0),
        )
        .unwrap_err();
        let message = error.message();
        assert!(message.contains("abc-123"), "{message}");
        assert!(message.contains("committed"), "{message}");
        assert!(message.contains("stderr output I/O failure"), "{message}");
        assert_eq!(error.source.kind, IoKind::PermissionDenied);
    }
}

#[test]
fn a_missing_newline_is_added_once() {
    assert_eq!(output_text("report"), "report\n");
    assert_eq!(output_text("report\n"), "report\n");
    assert_eq!(output_text(""), "\n");
    assert_eq!(write_output(None, 7, "stdout"), Ok(7));
}

#[test]
fn output_errors_name_the_stream_and_the_cause() {
    let cause = || IoError {
        kind: IoKind::Other,
        code: Some(28),
        message: "no space".to_string(),
    };
    assert_eq!(
        write_output(Some(cause()), 0, "stdout").unwrap_err().message(),
        "stdout output I/O failure: no space"
    );
    assert_eq!(
        record_output(Some(cause()), &finalized_record(0))
            .unwrap_err()
            .message(),
        "record abc-123 was committed before its summary output failed: \
         stderr output I/O failure: no space"
    );
}
