//! Planning and decoding for an exhaustive search that runs on a compute
//! accelerator.
//!
//! A search packs two 16-bit identifiers into one key, hands the key to a
//! kernel that tries every candidate, and reads back up to nine matches,
//! which it returns as text. The device work itself is the host code's;
//! this library decides what that work is and in which order it happens,
//! and turns what comes back into the result.
//!
//! - [`key`]: the packed key.
//! - [`plan`]: the device request, the buffers, and the submission.
//! - [`bytes`]: words as device buffers hold them.
//! - [`slots`]: the output slots and the matches in them.
//! - [`text`]: decimal text.
//! - [`pipeline`]: the stages of one search, from idle to its result.

pub mod bytes;
pub mod key;
pub mod pipeline;
pub mod plan;
pub mod slots;
pub mod text;
