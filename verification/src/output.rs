//! Output of an already computed result and the exit status that goes with it.
use vstd::prelude::*;
use vstd::string::*;

use crate::io;
use crate::io::{with_context, IoError, IoKind};
use crate::model::RecordResult;
use crate::report;
use crate::text;

verus! {

/// What is written for a text: the text, with a newline at its end.
pub open spec fn terminated(s: Seq<char>) -> Seq<char> {
    if text::before_suffix(s, "\n"@) is Some {
        s
    } else {
        s + "\n"@
    }
}

/// Gives what is written for a text.
pub fn output_text(s: &str) -> (r: String)
    ensures
        r@ == terminated(s@),
{
    let mut r: String = s.to_owned();
    if text::strip_suffix(s, "\n").is_none() {
        r.append("\n");
    }
    r
}

/// An output that failed, with the words for what was being written.
#[derive(Debug, PartialEq, Eq)]
pub struct OutputError {
    /// The words for what was being written.
    pub context: String,
    /// The failed operation.
    pub source: IoError,
}

impl OutputError {
    /// The text for the error and what caused it.
    pub open spec fn text(self) -> Seq<char> {
        io::context(self.context@, self.source.message@)
    }

    /// Gives the text for the error and what caused it.
    pub fn message(&self) -> (r: String)
        ensures
            r@ == self.text(),
    {
        with_context(self.context.as_str(), self.source.message.as_str())
    }
}

/// Gives the exit status once a result was written: a reader that is gone changes
/// nothing, and any other failure is an error.
pub fn write_output(failure: Option<IoError>, code: i32, stream: &str) -> (r: Result<
    i32,
    OutputError,
>)
    ensures
        match (r, failure) {
            (Ok(status), None) => status == code,
            (Ok(status), Some(error)) => status == code && error.kind is BrokenPipe,
            (Err(e), Some(error)) => !(error.kind is BrokenPipe) && e.source == error && e.context@
                == stream@ + " output I/O failure"@,
            (Err(_), None) => false,
        },
{
    match failure {
        None => Ok(code),
        Some(error) => {
            if error.kind == IoKind::BrokenPipe {
                Ok(code)
            } else {
                let mut context: String = stream.to_owned();
                context.append(" output I/O failure");
                Err(OutputError { context, source: error })
            }
        },
    }
}

/// Gives what the record command writes.
pub fn record_text(result: &RecordResult) -> (r: String)
    ensures
        r@ == terminated(report::record_summary(*result)),
{
    let summary: String = report::record(result);
    output_text(summary.as_str())
}

/// Gives the exit status once the summary of a record was written; an error names
/// the record, which is committed by then.
pub fn record_output(failure: Option<IoError>, result: &RecordResult) -> (r: Result<
    i32,
    OutputError,
>)
    ensures
        match (r, failure) {
            (Ok(status), None) => status == result.cli_exit,
            (Ok(status), Some(error)) => status == result.cli_exit && error.kind is BrokenPipe,
            (Err(e), Some(error)) => !(error.kind is BrokenPipe) && e.source == error && e.context@
                == io::context(
                "record "@ + result.id@ + " was committed before its summary output failed"@,
                "stderr"@ + " output I/O failure"@,
            ),
            (Err(_), None) => false,
        },
{
    match write_output(failure, result.cli_exit, "stderr") {
        Ok(status) => Ok(status),
        Err(error) => {
            let mut words: String = "record ".to_owned();
            words.append(result.id.as_str());
            words.append(" was committed before its summary output failed");
            Err(
                OutputError {
                    context: with_context(words.as_str(), error.context.as_str()),
                    source: error.source,
                },
            )
        },
    }
}

} // verus!
