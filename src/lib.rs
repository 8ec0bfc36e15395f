//! Readings from e-mail: recovers data attachments from raw messages and
//! turns them, or the text of a report, into temperature and pool chemistry
//! readings. Every function is verified against its contract; the calls into
//! outside crates stand behind small trusted wrappers that name what they
//! return.

pub mod attachment_parser;
pub mod blueriot;
pub mod config;
pub mod decimal;
pub mod decoder;
pub mod email;
pub mod json;
pub mod pattern;
pub mod text;
pub mod timestamp;
pub mod xsense;
