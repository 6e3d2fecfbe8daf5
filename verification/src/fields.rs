//! The decoder's data model: one decoded multipart field, the decode
//! outcome with its failure taxonomy, and the handler's result types.
//!
//! Field names, file names and payloads are kept as raw bytes: the decoder
//! treats client-supplied metadata as opaque untrusted labels.

use vstd::prelude::*;

verus! {

/// Mathematical model of one decoded multipart field.
pub ghost struct FieldModel {
    pub name: Seq<u8>,
    pub file_name: Option<Seq<u8>>,
    pub content_type: Option<Seq<u8>>,
    pub bytes: Seq<u8>,
}

/// One successfully parsed multipart field: the field's name, the
/// client-declared file name and content type (both optional, untrusted),
/// and the raw payload.
pub struct DecodedField {
    pub field_name: Vec<u8>,
    pub file_name: Option<Vec<u8>>,
    pub content_type: Option<Vec<u8>>,
    pub bytes: Vec<u8>,
}

impl View for DecodedField {
    type V = FieldModel;

    open spec fn view(&self) -> FieldModel {
        FieldModel {
            name: self.field_name@,
            file_name: match self.file_name {
                Some(v) => Some(v@),
                None => None,
            },
            content_type: match self.content_type {
                Some(v) => Some(v@),
                None => None,
            },
            bytes: self.bytes@,
        }
    }
}

/// Why a decode failed.
///
/// `MalformedRequest`: the content-type header did not declare
/// `multipart/form-data` with a usable boundary. `TotalTooLarge`: the running
/// count of consumed body bytes crossed the total bound. `FieldTooLarge`: the
/// `"file"` field's payload crossed the per-file bound. `IncompleteBody`: the
/// body ended, or its framing broke, before a complete set of parts was seen.
#[derive(Clone, Copy, Debug, PartialEq, Eq, Structural)]
pub enum DecodeFailureKind {
    MalformedRequest,
    TotalTooLarge,
    FieldTooLarge,
    IncompleteBody,
}

/// Mathematical model of a decode outcome.
pub ghost enum DecodeModel {
    Success(Seq<FieldModel>),
    Failure(DecodeFailureKind),
}

/// The decoder's result: every field seen, in order, or a classified
/// failure.
pub enum DecodeOutcome {
    Success(Vec<DecodedField>),
    Failure(DecodeFailureKind),
}

/// The models of a sequence of decoded fields, in order.
pub open spec fn fields_view(s: Seq<DecodedField>) -> Seq<FieldModel> {
    s.map_values(|f: DecodedField| f@)
}

impl View for DecodeOutcome {
    type V = DecodeModel;

    open spec fn view(&self) -> DecodeModel {
        match self {
            DecodeOutcome::Success(v) => DecodeModel::Success(fields_view(v@)),
            DecodeOutcome::Failure(k) => DecodeModel::Failure(*k),
        }
    }
}

/// Mapping a sequence of fields to its models commutes with `push`.
pub proof fn lemma_fields_view_push(s: Seq<DecodedField>, f: DecodedField)
    ensures
        fields_view(s.push(f)) == fields_view(s).push(f@),
{
    assert(fields_view(s.push(f)) =~= fields_view(s).push(f@));
}

/// The model of no fields is no field models.
pub proof fn lemma_fields_view_empty()
    ensures
        fields_view(Seq::<DecodedField>::empty()) == Seq::<FieldModel>::empty(),
{
    assert(fields_view(Seq::<DecodedField>::empty()) =~= Seq::<FieldModel>::empty());
}

/// The client-visible rejection kinds.
#[derive(Clone, Copy, Debug, PartialEq, Eq, Structural)]
pub enum ClientErrorKind {
    FileTooLarge,
    BodyTruncated,
    NoFileProvided,
}

/// Mathematical model of an upload result.
pub ghost enum UploadModel {
    Stored(Seq<u8>),
    Rejected(ClientErrorKind),
}

/// The handler's result: the upload was committed under the returned
/// destination name, or it was rejected for a client-visible reason.
pub enum UploadResult {
    Stored(Vec<u8>),
    Rejected(ClientErrorKind),
}

impl View for UploadResult {
    type V = UploadModel;

    open spec fn view(&self) -> UploadModel {
        match self {
            UploadResult::Stored(n) => UploadModel::Stored(n@),
            UploadResult::Rejected(k) => UploadModel::Rejected(*k),
        }
    }
}

/// A condition the handler treats as fatal for the request rather than as a
/// client-visible rejection: the request did not match the expected protocol
/// at all.
#[derive(Clone, Copy, Debug, PartialEq, Eq, Structural)]
pub enum FatalKind {
    MalformedRequest,
}

} // verus!
