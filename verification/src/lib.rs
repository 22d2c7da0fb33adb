//! A reader for ustar archives: fixed 512-byte blocks, header field decoding,
//! and the sequencing of headers and the data blocks they own into entries.

pub mod block;
pub mod entry;
pub mod error;
pub mod header;
pub mod layout;
pub mod octal;
pub mod stream;
pub mod text;
pub mod visual;
