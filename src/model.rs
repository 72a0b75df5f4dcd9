use vstd::prelude::*;

verus! {

/// The request that asks the remote service whether a file needs an upload.
#[derive(Debug)]
pub struct TicTacUploadRequest {
    pub device_id: String,
    pub device_filename: String,
    pub content_type: String,
    pub size: i64,
    pub num_parts: i32,
}

impl TicTacUploadRequest {
    pub fn new(
        device_id: String,
        device_filename: String,
        content_type: String,
        size: i64,
        num_parts: i32,
    ) -> (r: Self)
        ensures
            r.device_id == device_id,
            r.device_filename == device_filename,
            r.content_type == content_type,
            r.size == size,
            r.num_parts == num_parts,
    {
        Self { device_id, device_filename, content_type, size, num_parts }
    }
}

/// The remote service's answer to a `TicTacUploadRequest`: an upload
/// identifier when the file must be sent, none when it is already there.
#[derive(Debug)]
pub struct GetOrCreateUploadResponse {
    pub upload_id: Option<String>,
}

} // verus!
