//! The Apple Video Decoder (AVD).

pub mod backend;
pub mod cm3;
pub mod common;
pub mod decode;
pub mod device;
pub mod firmware;
pub mod h264;
pub mod h264_refs;
pub mod h264_stream;
pub mod image;
pub mod registers;
pub mod trace;
pub mod vp9;
pub mod vvideo;
pub mod words;
