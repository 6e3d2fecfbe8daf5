//! A minimal ad-hoc file-ingestion library: decoding of `multipart/form-data`
//! request bodies with byte-size limits enforced during the decode, a precise
//! taxonomy of decode failures, and a keyed byte store with overwrite
//! semantics for committing exactly one file per accepted request.

pub mod fields;
pub mod handler;
pub mod limits;
pub mod multipart;
pub mod scan;
pub mod store;

pub use fields::{
    ClientErrorKind, DecodeFailureKind, DecodeModel, DecodeOutcome, DecodedField, FatalKind,
    FieldModel, UploadModel, UploadResult,
};
pub use handler::handle_upload;
pub use limits::UploadLimits;
pub use multipart::decode_multipart;
pub use store::Store;
