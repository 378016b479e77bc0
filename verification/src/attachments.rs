//! Files attached to a prompt: which ones can be staged, how they ride the
//! prompt's text, and how that text is read back.
pub mod image_bytes;
pub mod staging;
pub mod transport;
