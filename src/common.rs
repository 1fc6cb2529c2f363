//! Messages that worker threads hand back.
use vstd::prelude::*;

verus! {

/// anyhow's error type, carried unopened in worker messages.
#[verifier::external_type_specification]
#[verifier::external_body]
pub struct ExAnyhowError(anyhow::Error);

#[derive(Debug)]
pub enum WorkerType {
    UploadResult(Result<String, anyhow::Error>),
}

#[derive(Debug)]
pub struct WorkerMessage {
    pub index: usize,
    pub payload: WorkerType,
}

impl WorkerMessage {
    /// The message that reports the upload of the file at `index`.
    pub fn upload_result(index: usize, result: Result<String, anyhow::Error>) -> (r: WorkerMessage)
        ensures
            r.index == index,
            r.payload == WorkerType::UploadResult(result),
    {
        WorkerMessage { index, payload: WorkerType::UploadResult(result) }
    }
}

} // verus!
