//! Search and filter engine of a mail client.
//!
//! A query names a folder, a subject pattern, a date window and an order. The
//! server can only be asked for whole days, so the library writes the search
//! for the days of the window (`datetime`), and then judges each fetched
//! message itself (`engine`): it keeps those received in the exact window
//! whose subject passes (`matcher`), decodes their header fields and text
//! (`client`, `mime`), lists the attachments that their part tree declares
//! (`structure`), and orders the result newest first (`order`). `download`
//! takes the attached files out of the full bytes of one message; `result`
//! and `search` prepare the mails found for output.
//!
//! The library does no input or output. What it needs from the server it is
//! handed as plain values, and what it has from other crates (decoding of
//! MIME and of folder names, regular expressions, the calendar) it calls
//! through a few functions whose contracts are stated and not proved; each
//! of them says so.

pub mod client;
pub mod datetime;
pub mod download;
pub mod engine;
pub mod error;
pub mod matcher;
pub mod mime;
pub mod order;
pub mod result;
pub mod search;
pub mod structure;
pub mod text;
pub mod utf7;
