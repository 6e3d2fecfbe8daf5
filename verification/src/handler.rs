//! The upload commit handler: one request's content-type header and body,
//! plus the configured limits, become a final [`UploadResult`], with exactly
//! one store write on the stored path and none on any other.

use vstd::prelude::*;

use crate::fields::{
    ClientErrorKind, DecodeFailureKind, DecodeModel, DecodeOutcome, DecodedField, FatalKind,
    FieldModel, UploadModel, UploadResult, fields_view,
};
use crate::limits::UploadLimits;
use crate::multipart::{decode_multipart, file_field_name, file_field_vec, spec_decode};
use crate::scan::{bytes_eq, copy_range};
use crate::store::Store;

verus! {

/// The fixed placeholder destination name `"File"`, used when the client
/// declared no file name or an empty one.
pub open spec fn default_file_name() -> Seq<u8> {
    seq![70u8, 105, 108, 101]
}

fn default_file_vec() -> (r: Vec<u8>)
    ensures
        r@ == default_file_name(),
{
    let mut v: Vec<u8> = Vec::new();
    v.push(70);
    v.push(105);
    v.push(108);
    v.push(101);
    proof {
        assert(v@ =~= default_file_name());
    }
    v
}

/// The index of the first field named `"file"` at or after `i`, if any.
pub open spec fn spec_first_file(fs: Seq<FieldModel>, i: int) -> Option<int>
    decreases fs.len() - i,
{
    if i < 0 || i >= fs.len() {
        None
    } else if fs[i].name == file_field_name() {
        Some(i)
    } else {
        spec_first_file(fs, i + 1)
    }
}

/// The destination name an accepted field is stored under: the declared
/// file name verbatim when present and non-empty, else the placeholder.
pub open spec fn spec_dest_name(f: FieldModel) -> Seq<u8> {
    match f.file_name {
        Some(n) => if n.len() > 0 {
            n
        } else {
            default_file_name()
        },
        None => default_file_name(),
    }
}

/// The handler's result for a given decode outcome: size failures are
/// reported as `FileTooLarge`, a broken body as `BodyTruncated`, a
/// malformed content-type as the fatal condition; on a successful decode
/// the first `"file"` field is committed, and its absence is
/// `NoFileProvided`.
pub open spec fn spec_outcome(dm: DecodeModel) -> Result<UploadModel, FatalKind> {
    match dm {
        DecodeModel::Failure(k) => match k {
            DecodeFailureKind::MalformedRequest => Err(FatalKind::MalformedRequest),
            DecodeFailureKind::TotalTooLarge => Ok(
                UploadModel::Rejected(ClientErrorKind::FileTooLarge),
            ),
            DecodeFailureKind::FieldTooLarge => Ok(
                UploadModel::Rejected(ClientErrorKind::FileTooLarge),
            ),
            DecodeFailureKind::IncompleteBody => Ok(
                UploadModel::Rejected(ClientErrorKind::BodyTruncated),
            ),
        },
        DecodeModel::Success(fs) => match spec_first_file(fs, 0) {
            None => Ok(UploadModel::Rejected(ClientErrorKind::NoFileProvided)),
            Some(i) => Ok(UploadModel::Stored(spec_dest_name(fs[i]))),
        },
    }
}

/// The store's content after the handler ran: unchanged unless the decode
/// succeeded with a `"file"` field, in which case exactly that field's
/// payload now stands under its destination name.
pub open spec fn spec_store_after(dm: DecodeModel, st: Map<Seq<u8>, Seq<u8>>) -> Map<
    Seq<u8>,
    Seq<u8>,
> {
    match dm {
        DecodeModel::Success(fs) => match spec_first_file(fs, 0) {
            None => st,
            Some(i) => st.insert(spec_dest_name(fs[i]), fs[i].bytes),
        },
        DecodeModel::Failure(_) => st,
    }
}

proof fn lemma_no_file_from(fs: Seq<FieldModel>, i: int)
    requires
        0 <= i,
        forall|j: int| i <= j < fs.len() ==> fs[j].name != file_field_name(),
    ensures
        spec_first_file(fs, i).is_none(),
    decreases fs.len() - i,
{
    if i < fs.len() {
        lemma_no_file_from(fs, i + 1);
    }
}

/// A decode that crossed the total bound is rejected as `FileTooLarge` and
/// the store is untouched.
pub proof fn lemma_total_too_large_rejected(dm: DecodeModel, st: Map<Seq<u8>, Seq<u8>>)
    requires
        dm == DecodeModel::Failure(DecodeFailureKind::TotalTooLarge),
    ensures
        spec_outcome(dm) == Ok::<UploadModel, FatalKind>(
            UploadModel::Rejected(ClientErrorKind::FileTooLarge),
        ),
        spec_store_after(dm, st) == st,
{
}

/// A decode whose `"file"` field crossed the per-file bound is rejected as
/// `FileTooLarge` and the store is untouched.
pub proof fn lemma_file_too_large_rejected(dm: DecodeModel, st: Map<Seq<u8>, Seq<u8>>)
    requires
        dm == DecodeModel::Failure(DecodeFailureKind::FieldTooLarge),
    ensures
        spec_outcome(dm) == Ok::<UploadModel, FatalKind>(
            UploadModel::Rejected(ClientErrorKind::FileTooLarge),
        ),
        spec_store_after(dm, st) == st,
{
}

/// A truncated or corrupt body is rejected as `BodyTruncated` and the
/// store is untouched: no partial file is ever committed.
pub proof fn lemma_truncated_rejected(dm: DecodeModel, st: Map<Seq<u8>, Seq<u8>>)
    requires
        dm == DecodeModel::Failure(DecodeFailureKind::IncompleteBody),
    ensures
        spec_outcome(dm) == Ok::<UploadModel, FatalKind>(
            UploadModel::Rejected(ClientErrorKind::BodyTruncated),
        ),
        spec_store_after(dm, st) == st,
{
}

/// A successful decode with no field named `"file"` is rejected as
/// `NoFileProvided` and the store is untouched.
pub proof fn lemma_no_file_rejected(fs: Seq<FieldModel>, st: Map<Seq<u8>, Seq<u8>>)
    requires
        forall|j: int| 0 <= j < fs.len() ==> fs[j].name != file_field_name(),
    ensures
        spec_outcome(DecodeModel::Success(fs)) == Ok::<UploadModel, FatalKind>(
            UploadModel::Rejected(ClientErrorKind::NoFileProvided),
        ),
        spec_store_after(DecodeModel::Success(fs), st) == st,
{
    lemma_no_file_from(fs, 0);
}

/// A successful decode whose first `"file"` field is `fs[i]` is committed:
/// the result names the destination, and the store afterwards holds exactly
/// that field's payload under that name — the same count of bytes,
/// identical in content.
pub proof fn lemma_stored_exact(fs: Seq<FieldModel>, i: int, st: Map<Seq<u8>, Seq<u8>>)
    requires
        spec_first_file(fs, 0) == Some(i),
        0 <= i < fs.len(),
    ensures
        spec_outcome(DecodeModel::Success(fs)) == Ok::<UploadModel, FatalKind>(
            UploadModel::Stored(spec_dest_name(fs[i])),
        ),
        spec_store_after(DecodeModel::Success(fs), st) == st.insert(
            spec_dest_name(fs[i]),
            fs[i].bytes,
        ),
        spec_store_after(DecodeModel::Success(fs), st).contains_key(spec_dest_name(fs[i])),
        spec_store_after(DecodeModel::Success(fs), st)[spec_dest_name(fs[i])] == fs[i].bytes,
        spec_store_after(DecodeModel::Success(fs), st)[spec_dest_name(fs[i])].len()
            == fs[i].bytes.len(),
{
}

/// Handles one request: decodes the body under the configured limits, and
/// on success commits the first `"file"` field to the store under its
/// destination name, overwriting. The result and the store's new content
/// are exactly what [`spec_outcome`] and [`spec_store_after`] state for the
/// decode of these inputs.
pub fn handle_upload(
    content_type: &Vec<u8>,
    body: &Vec<u8>,
    limits: &UploadLimits,
    store: &mut Store,
) -> (r: Result<UploadResult, FatalKind>)
    requires
        old(store).wf(),
    ensures
        final(store).wf(),
        ({
            let dm = spec_decode(
                content_type@,
                body@,
                limits.max_total_bytes as int,
                limits.max_file_bytes as int,
            );
            &&& (match r {
                Ok(u) => Ok::<UploadModel, FatalKind>(u@),
                Err(k) => Err(k),
            }) == spec_outcome(dm)
            &&& final(store)@ == spec_store_after(dm, old(store)@)
        }),
{
    let outcome = decode_multipart(content_type, body, limits);
    match outcome {
        DecodeOutcome::Failure(k) => match k {
            DecodeFailureKind::MalformedRequest => Err(FatalKind::MalformedRequest),
            DecodeFailureKind::TotalTooLarge => Ok(
                UploadResult::Rejected(ClientErrorKind::FileTooLarge),
            ),
            DecodeFailureKind::FieldTooLarge => Ok(
                UploadResult::Rejected(ClientErrorKind::FileTooLarge),
            ),
            DecodeFailureKind::IncompleteBody => Ok(
                UploadResult::Rejected(ClientErrorKind::BodyTruncated),
            ),
        },
        DecodeOutcome::Success(mut fields) => {
            let ghost fv = fields_view(fields@);
            let file_lit = file_field_vec();
            let mut i: usize = 0;
            loop
                invariant
                    old(store).wf(),
                    *store == *old(store),
                    i <= fields@.len(),
                    fv == fields_view(fields@),
                    spec_decode(
                        content_type@,
                        body@,
                        limits.max_total_bytes as int,
                        limits.max_file_bytes as int,
                    ) == DecodeModel::Success(fv),
                    file_lit@ == file_field_name(),
                    spec_first_file(fv, 0) == spec_first_file(fv, i as int),
                decreases fields@.len() - i,
            {
                if i == fields.len() {
                    assert(spec_first_file(fv, i as int).is_none());
                    return Ok(UploadResult::Rejected(ClientErrorKind::NoFileProvided));
                }
                assert(fv[i as int] == fields@[i as int]@);
                if bytes_eq(&fields[i].field_name, &file_lit) {
                    assert(spec_first_file(fv, i as int) == Some(i as int));
                    let f = fields.remove(i);
                    let DecodedField { field_name: _, file_name, content_type: _, bytes } = f;
                    let dest: Vec<u8> = match file_name {
                        Some(n) => if n.len() > 0 {
                            n
                        } else {
                            default_file_vec()
                        },
                        None => default_file_vec(),
                    };
                    assert(dest@ == spec_dest_name(fv[i as int]));
                    let display = copy_range(&dest, 0, dest.len());
                    assert(display@ =~= dest@);
                    store.write(dest, bytes);
                    return Ok(UploadResult::Stored(display));
                }
                assert(spec_first_file(fv, i as int) == spec_first_file(fv, i + 1 as int));
                i = i + 1;
            }
        },
    }
}

} // verus!
