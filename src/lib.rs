//! Ingestion of DMARC aggregate reports: the documents that report mails
//! carry are extracted, read against the report schema of RFC 7489, and
//! rolled up into a snapshot that one cycle publishes whole.

pub mod config;
pub mod text;
pub mod xml;
pub mod doc;
pub mod dmarc_report;
pub mod decode;
pub mod extract;
pub mod summary;
pub mod state;
pub mod scheduler;
