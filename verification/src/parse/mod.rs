//! Pure normalization of raw strace lines into evidence-bearing events.
//!
//! Parsing has no filesystem or process side effects: callers supply raw text,
//! its evidence-file label, and an optional last-observed CWD. Line syntax is
//! decoded incrementally, while task generations and filesystem contexts are
//! resolved once when the parser is finished.
pub mod calls;
pub mod certainty;
pub mod context_laws;
pub mod counts;
pub mod flag_names;
pub mod flags;
pub mod fs;
pub mod laws;
pub mod line_laws;
pub mod origin;
pub mod read_back;
pub mod resolve;
pub mod sharing;
pub mod syntax;
pub mod timeline;
pub mod trace;
