//! Record persistence: contracts, integrity and compatibility of what is stored.
//!
//! Nothing here opens a file. The storage layer performs the actions that these
//! modules ask for and hands back what it read. A finalization marker proves only
//! that the structured metadata and event bytes named by it were published and
//! verified. It does not authenticate their origin, cover the raw trace, or prove
//! capture success.
pub mod checksum;
pub mod contract;
pub mod error;
pub mod events;
pub mod index;
pub mod passages;
pub mod promises;
pub mod publish;
pub mod read;
pub mod roundtrip;
