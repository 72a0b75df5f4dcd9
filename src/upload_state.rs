pub use crate::model::TicTacUploadRequest;
use vstd::prelude::*;

verus! {

/// The batched answer of the remote service: one upload per file that must
/// be sent.
#[derive(Debug)]
pub struct GetOrCreateUploadResponse {
    pub uploads: Vec<UploadWithFileName>,
}

/// An upload identifier together with the file it was issued for.
#[derive(Debug)]
pub struct UploadWithFileName {
    pub upload_id: String,
    pub file_name: String,
}

/// Registers an upload of a device file under an upload identifier.
#[derive(Debug)]
pub struct CreateUploadRequest {
    pub device_id: String,
    pub upload_id: String,
    pub device_filename: String,
    pub tags: Option<Vec<String>>,
}

} // verus!
