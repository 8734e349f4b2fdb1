//! Locates and decodes MPEG audio frame headers in a byte stream, without
//! touching the audio data.
//!
//! `trim_data` takes the metadata tag off a buffer, `parse_frame_header`
//! decodes the four bytes of a frame header, `FrameHeader::frame_size`
//! derives the length of the frame, and `FrameReader` walks a buffer from
//! frame to frame.
pub mod error;
pub mod frame;
pub mod header;
pub mod tables;
pub mod tag;

pub use error::{HeaderError, Mp3Error};
pub use tag::{trim_data, ID3V1_LEN};
