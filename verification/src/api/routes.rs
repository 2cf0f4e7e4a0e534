//! The request and response shapes of the API surface, and the error
//! numbering it reports. The HTTP plumbing around them lives with the
//! embedding layer.

use vstd::prelude::*;

verus! {

/// The API's error classes.
#[derive(Debug, Clone, Copy, PartialEq, Eq, Structural)]
pub enum ErrorNumber {
    ContainerNotFound,
    OperationFailed,
    InternalError,
    GPUTransferError,
}

/// The status code reported for each error class.
pub open spec fn status_code_of(e: ErrorNumber) -> u16 {
    match e {
        ErrorNumber::ContainerNotFound => 404,
        ErrorNumber::OperationFailed => 400,
        ErrorNumber::InternalError => 500,
        ErrorNumber::GPUTransferError => 409,
    }
}

/// An error as the API reports it: message and status code.
#[derive(Debug, Clone)]
pub struct ErrorResponse {
    pub error: String,
    pub code: u16,
}

impl ErrorResponse {
    /// A response for the error class, carrying the message and the
    /// class's status code.
    pub fn new(error_number: ErrorNumber, message: String) -> (r: ErrorResponse)
        ensures
            r.error@ == message@,
            r.code == status_code_of(error_number),
    {
        let code: u16 = match error_number {
            ErrorNumber::ContainerNotFound => 404,
            ErrorNumber::OperationFailed => 400,
            ErrorNumber::InternalError => 500,
            ErrorNumber::GPUTransferError => 409,
        };
        ErrorResponse { error: message, code }
    }
}

/// A request to create a VM.
#[derive(Debug, Clone)]
pub struct CreateVMRequest {
    pub name: String,
    pub image: String,
    pub gpu_required: bool,
}

/// What the API reports of one VM.
#[derive(Debug, Clone)]
pub struct VMResponse {
    pub id: String,
    pub name: String,
    pub status: String,
    pub gpu_attached: bool,
}

/// A request to attach a GPU to a container.
#[derive(Debug, Clone)]
pub struct AttachGPURequest {
    pub gpu_id: String,
}

} // verus!
