//! Device sync and resumable upload engine for removable camera volumes.
//!
//! The library holds the decisions of a sync run: which USB device is a
//! camera, which files on its volume are candidates, which of them a local
//! skip cache already rules out, how a file is cut into chunks, and how the
//! replies of the remote service drive each file to exactly one outcome.
//! Input and output (the USB inventory, the file system walk, HTTP) stay with
//! the caller, which performs the action that the engine asks for and hands
//! the reply back.

pub mod camera_finder;
pub mod chunking;
pub mod device_type;
pub mod media;
pub mod model;
pub mod status;
pub mod storage;
pub mod sync;
pub mod text;
pub mod upload_state;
pub mod usb_profile;
