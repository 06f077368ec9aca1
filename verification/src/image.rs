//! What an image generation request decides on its way through the pool:
//! which credential serves it, what each outcome means for that
//! credential, what the client is told when it fails, and what is written
//! into the log.
//!
//! The calls to the upstream service are made elsewhere. Each function
//! here takes what such a call brought back and says what comes next.

pub mod flow;
pub mod json;
pub mod laws;
pub mod log;
pub mod text;

pub use flow::{advance, start, ErrorReply, ImageAction, ImageEvent, ImageFlow, ImageState};
pub use log::LogLine;
