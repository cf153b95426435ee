//! The error taxonomy. A failed scan of the whole root reports
//! `SetupsFolderNotFound`; deeper failures degrade single branches or
//! leaves to absent and never surface as errors.
use vstd::prelude::*;

verus! {

/// Errors the subsystem and the surrounding application report.
#[derive(Debug, Clone, PartialEq, Eq)]
pub enum AccError {
    SetupsFolderNotFound { path: String },
    InvalidSetupJson { file_path: String, error: String },
    PermissionDenied { path: String },
    CarNameMismatch { json_car: String, folder_car: String },
    MissingRequiredField { field: String },
    FileNotFound { path: String },
    DirectoryCreationFailed { path: String, error: String },
    FileWriteFailed { path: String, error: String },
    InvalidCarId { car_id: String },
    InvalidTrackId { track_id: String },
    SetupValidationFailed { reason: String },
    IoError { message: String },
    SerializationError { message: String },
}

pub type AccResult<T> = Result<T, AccError>;

} // verus!
