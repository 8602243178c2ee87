//! Structural decoding of MP3 files: the ID3v2 tag in front of the audio
//! stream, the header of each MPEG audio frame, and the side information that
//! follows the header. No audio is decoded.

pub mod error;
pub mod enums;
pub mod mpeg;
pub mod util;
pub mod side_information;
pub mod id3;
pub mod frame;
