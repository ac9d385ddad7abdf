//! Capture policy: what the observed facts of one recorded command amount to.
//!
//! Nothing here starts a process, reads a clock or touches storage. The recorder
//! performs the actions that these modules ask for and hands back what it observed.
pub mod child;
pub mod completion;
pub mod facts;
pub mod limits;
pub mod outcomes;
pub mod policy;
pub mod probe;
pub mod record;
pub mod recording;
pub mod signal_scope;
pub mod signals;
pub mod supervise;
pub mod turns;
