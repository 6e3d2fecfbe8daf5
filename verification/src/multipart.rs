//! The streaming `multipart/form-data` decoder.
//!
//! The decoder consumes a content-type header and the raw request body and
//! produces a [`DecodeOutcome`]: every field seen, in order, or a classified
//! failure. Byte positions in the body double as the running count of
//! consumed bytes, so the size bounds are enforced at the point in the
//! stream where they are crossed, never after buffering past them.
//!
//! The accepted shape of a body, for a boundary `B`, is
//!
//! ```text
//! --B\r\n
//! <headers containing `; name="..."`, optionally `; filename="..."`
//!  and `Content-Type: ...`>\r\n
//! \r\n
//! <payload>\r\n
//! --B\r\n
//! ...
//! <payload>\r\n
//! --B--
//! ```
//!
//! A body that ends, or whose framing breaks, before the closing delimiter
//! is classified as [`DecodeFailureKind::IncompleteBody`] — unless the
//! bytes consumed up to that point already crossed the total bound, which
//! is [`DecodeFailureKind::TotalTooLarge`]: size limits take priority over
//! truncation.

use vstd::prelude::*;

use crate::fields::{
    DecodeFailureKind, DecodeModel, DecodeOutcome, DecodedField, FieldModel, fields_view,
};
use crate::limits::UploadLimits;
use crate::scan::{
    CR, DASH, LF, bytes_eq, copy_range, find_in, lemma_find_in_range, match_at, match_at_exec,
    spec_find,
};

verus! {

/// `"multipart/form-data"`.
pub open spec fn multipart_pat() -> Seq<u8> {
    seq![109u8, 117, 108, 116, 105, 112, 97, 114, 116, 47, 102, 111, 114, 109, 45, 100, 97, 116, 97]
}

/// `"boundary="`.
pub open spec fn boundary_pat() -> Seq<u8> {
    seq![98u8, 111, 117, 110, 100, 97, 114, 121, 61]
}

/// `";"`.
pub open spec fn semi_pat() -> Seq<u8> {
    seq![59u8]
}

/// `"\r\n"`.
pub open spec fn crlf_pat() -> Seq<u8> {
    seq![CR, LF]
}

/// `"\r\n\r\n"`: the blank line that ends a part's headers.
pub open spec fn header_end_pat() -> Seq<u8> {
    seq![CR, LF, CR, LF]
}

/// `"\""`.
pub open spec fn quote_pat() -> Seq<u8> {
    seq![34u8]
}

/// `"; name=\""`.
pub open spec fn name_pat() -> Seq<u8> {
    seq![59u8, 32, 110, 97, 109, 101, 61, 34]
}

/// `"; filename=\""`.
pub open spec fn filename_pat() -> Seq<u8> {
    seq![59u8, 32, 102, 105, 108, 101, 110, 97, 109, 101, 61, 34]
}

/// `"Content-Type: "`.
pub open spec fn content_type_pat() -> Seq<u8> {
    seq![67u8, 111, 110, 116, 101, 110, 116, 45, 84, 121, 112, 101, 58, 32]
}

/// `"--"` followed by the boundary: the delimiter that opens the body.
pub open spec fn first_delim(bnd: Seq<u8>) -> Seq<u8> {
    seq![DASH, DASH] + bnd
}

/// `"\r\n--"` followed by the boundary: the delimiter that ends a payload.
pub open spec fn part_delim(bnd: Seq<u8>) -> Seq<u8> {
    seq![CR, LF, DASH, DASH] + bnd
}

/// The reserved field name `"file"`: the one field the decoder size-limits
/// on its own.
pub open spec fn file_field_name() -> Seq<u8> {
    seq![102u8, 105, 108, 101]
}

/// The boundary declared by a content-type header: the header must open
/// with `multipart/form-data` and carry a non-empty `boundary=` parameter,
/// which runs to the next `;` or to the end of the header. A parameter
/// wrapped in one pair of double quotes loses them; the boundary inside
/// must still be non-empty.
pub open spec fn spec_boundary(ct: Seq<u8>) -> Option<Seq<u8>> {
    if !match_at(ct, multipart_pat(), 0) {
        None
    } else {
        match spec_find(ct, boundary_pat(), 0, ct.len() as int) {
            None => None,
            Some(i) => {
                let s = i + boundary_pat().len();
                let e = match spec_find(ct, semi_pat(), s, ct.len() as int) {
                    Some(j) => j,
                    None => ct.len() as int,
                };
                if s < e {
                    let raw = ct.subrange(s, e);
                    if raw.len() >= 2 && raw[0] == 34u8 && raw[raw.len() as int - 1] == 34u8 {
                        if raw.len() > 2 {
                            Some(raw.subrange(1, raw.len() as int - 1))
                        } else {
                            None
                        }
                    } else {
                        Some(raw)
                    }
                } else {
                    None
                }
            },
        }
    }
}

/// Mathematical model of one part's parsed headers.
pub ghost struct HeaderModel {
    pub name: Seq<u8>,
    pub file_name: Option<Seq<u8>>,
    pub content_type: Option<Seq<u8>>,
}

/// The declared content type inside the header region `body[hs..he)`, if
/// any: the bytes after `Content-Type: ` up to the next line break, or to
/// the end of the region.
pub open spec fn spec_content_type(body: Seq<u8>, hs: int, he: int) -> Option<Seq<u8>> {
    match spec_find(body, content_type_pat(), hs, he) {
        None => None,
        Some(m) => {
            let vs = m + content_type_pat().len();
            let ve = match spec_find(body, crlf_pat(), vs, he) {
                Some(j) => j,
                None => he,
            };
            Some(body.subrange(vs, ve))
        },
    }
}

/// The parse of the header region `body[hs..he)` of one part. The region
/// must carry `; name="..."`; a `; filename="..."` whose closing quote is
/// missing makes the whole region corrupt.
pub open spec fn spec_headers(body: Seq<u8>, hs: int, he: int) -> Option<HeaderModel> {
    match spec_find(body, name_pat(), hs, he) {
        None => None,
        Some(i) => {
            let ns = i + name_pat().len();
            match spec_find(body, quote_pat(), ns, he) {
                None => None,
                Some(ne) => {
                    let name = body.subrange(ns, ne);
                    match spec_find(body, filename_pat(), hs, he) {
                        None => Some(HeaderModel {
                            name,
                            file_name: None,
                            content_type: spec_content_type(body, hs, he),
                        }),
                        Some(k) => {
                            let fs = k + filename_pat().len();
                            match spec_find(body, quote_pat(), fs, he) {
                                None => None,
                                Some(fe) => Some(HeaderModel {
                                    name,
                                    file_name: Some(body.subrange(fs, fe)),
                                    content_type: spec_content_type(body, hs, he),
                                }),
                            }
                        },
                    }
                },
            }
        },
    }
}

/// The classification of a scan that stopped after `consumed` bytes
/// without completing a frame: crossing the total bound during the scan is
/// a size failure, and only a scan that stays within it makes the body
/// incomplete. Size limits take priority over truncation.
pub open spec fn spec_scan_cut(consumed: int, mt: int) -> DecodeModel {
    if consumed > mt {
        DecodeModel::Failure(DecodeFailureKind::TotalTooLarge)
    } else {
        DecodeModel::Failure(DecodeFailureKind::IncompleteBody)
    }
}

/// The decode of the parts of `body` from position `pos` on, with the
/// fields decoded so far in `acc`. `pos` is both a position and the count
/// of body bytes consumed so far; `mt` and `mf` are the total and the
/// per-file bound.
///
/// One step decodes one part: its headers through the blank line, then its
/// payload up to the next delimiter. Crossing `mt`, or — for a part named
/// `"file"` — crossing `mf`, fails the decode at the first byte past the
/// bound: whichever bound has the smaller headroom at that point decides
/// the failure kind, the per-file bound deciding ties. A scan that runs
/// off the end of the body, or into corrupt framing, is classified by
/// [`spec_scan_cut`] over the bytes consumed by then.
pub open spec fn spec_parts(
    body: Seq<u8>,
    bnd: Seq<u8>,
    mt: int,
    mf: int,
    pos: int,
    acc: Seq<FieldModel>,
) -> DecodeModel
    decreases body.len() - pos,
{
    let delim = part_delim(bnd);
    match spec_find(body, header_end_pat(), pos, body.len() as int) {
        None => spec_scan_cut(body.len() as int, mt),
        Some(h) => {
            let hend = h + 4;
            if hend > mt {
                DecodeModel::Failure(DecodeFailureKind::TotalTooLarge)
            } else {
                match spec_headers(body, pos, h) {
                    None => DecodeModel::Failure(DecodeFailureKind::IncompleteBody),
                    Some(hm) => {
                        let is_file = hm.name == file_field_name();
                        let rt = mt - hend;
                        match spec_find(body, delim, hend, body.len() as int) {
                            None => {
                                let avail = body.len() - hend;
                                if is_file && avail > mf && mf <= rt {
                                    DecodeModel::Failure(DecodeFailureKind::FieldTooLarge)
                                } else if avail > rt {
                                    DecodeModel::Failure(DecodeFailureKind::TotalTooLarge)
                                } else if is_file && avail > mf {
                                    DecodeModel::Failure(DecodeFailureKind::FieldTooLarge)
                                } else {
                                    DecodeModel::Failure(DecodeFailureKind::IncompleteBody)
                                }
                            },
                            Some(d) => {
                                let plen = d - hend;
                                if is_file && plen > mf && mf <= rt {
                                    DecodeModel::Failure(DecodeFailureKind::FieldTooLarge)
                                } else if plen > rt {
                                    DecodeModel::Failure(DecodeFailureKind::TotalTooLarge)
                                } else if is_file && plen > mf {
                                    DecodeModel::Failure(DecodeFailureKind::FieldTooLarge)
                                } else {
                                    let fld = FieldModel {
                                        name: hm.name,
                                        file_name: hm.file_name,
                                        content_type: hm.content_type,
                                        bytes: body.subrange(hend, d),
                                    };
                                    let after = d + delim.len();
                                    if after + 2 <= body.len() && body[after] == DASH
                                        && body[after + 1] == DASH {
                                        if after + 2 > mt {
                                            DecodeModel::Failure(DecodeFailureKind::TotalTooLarge)
                                        } else {
                                            DecodeModel::Success(acc.push(fld))
                                        }
                                    } else if after + 2 <= body.len() && body[after] == CR
                                        && body[after + 1] == LF {
                                        if after + 2 > mt {
                                            DecodeModel::Failure(DecodeFailureKind::TotalTooLarge)
                                        } else {
                                            proof {
                                                lemma_find_in_range(
                                                    body,
                                                    header_end_pat(),
                                                    pos,
                                                    body.len() as int,
                                                );
                                                lemma_find_in_range(
                                                    body,
                                                    delim,
                                                    hend,
                                                    body.len() as int,
                                                );
                                            }
                                            spec_parts(body, bnd, mt, mf, after + 2, acc.push(fld))
                                        }
                                    } else {
                                        let cut = if after + 2 <= body.len() {
                                            after + 2
                                        } else {
                                            body.len() as int
                                        };
                                        spec_scan_cut(cut, mt)
                                    }
                                }
                            },
                        }
                    },
                }
            }
        },
    }
}

/// The decode of a whole body against a known boundary: the body must open
/// with `--boundary` followed by either the close marker `--` or a line
/// break that starts the first part. The scan of that opening spans at most
/// the first `bnd.len() + 4` bytes; where it fails, [`spec_scan_cut`] over
/// the bytes it covered decides between the size failure and the broken
/// body.
pub open spec fn spec_decode_body(body: Seq<u8>, bnd: Seq<u8>, mt: int, mf: int) -> DecodeModel {
    if !match_at(body, first_delim(bnd), 0) || body.len() < bnd.len() + 4 {
        let cut = if body.len() < bnd.len() + 4 {
            body.len() as int
        } else {
            bnd.len() + 4 as int
        };
        spec_scan_cut(cut, mt)
    } else {
        let p = bnd.len() + 2 as int;
        if body[p as int] == DASH && body[p + 1 as int] == DASH {
            if p + 2 > mt {
                DecodeModel::Failure(DecodeFailureKind::TotalTooLarge)
            } else {
                DecodeModel::Success(Seq::empty())
            }
        } else if body[p as int] == CR && body[p + 1 as int] == LF {
            if p + 2 > mt {
                DecodeModel::Failure(DecodeFailureKind::TotalTooLarge)
            } else {
                spec_parts(body, bnd, mt, mf, p + 2 as int, Seq::empty())
            }
        } else {
            spec_scan_cut(p + 2, mt)
        }
    }
}

/// The decode of a whole request: boundary extraction from the content-type
/// header, then the body decode under the given bounds.
pub open spec fn spec_decode(ct: Seq<u8>, body: Seq<u8>, mt: int, mf: int) -> DecodeModel {
    match spec_boundary(ct) {
        None => DecodeModel::Failure(DecodeFailureKind::MalformedRequest),
        Some(bnd) => spec_decode_body(body, bnd, mt, mf),
    }
}

/// The number of payload bytes a sequence of decoded fields carries in all.
pub open spec fn payload_total(fs: Seq<FieldModel>) -> int
    decreases fs.len(),
{
    if fs.len() == 0 {
        0
    } else {
        payload_total(fs.drop_last()) + fs.last().bytes.len()
    }
}

proof fn lemma_parts_success(
    body: Seq<u8>,
    bnd: Seq<u8>,
    mt: int,
    mf: int,
    pos: int,
    acc: Seq<FieldModel>,
    fs: Seq<FieldModel>,
)
    requires
        0 <= pos,
        spec_parts(body, bnd, mt, mf, pos, acc) == DecodeModel::Success(fs),
    ensures
        acc.len() <= fs.len(),
        fs.subrange(0, acc.len() as int) == acc,
        forall|i: int|
            acc.len() <= i < fs.len() ==> (fs[i].name == file_field_name() ==> fs[i].bytes.len()
                <= mf),
        payload_total(fs) - payload_total(acc) <= mt - pos,
    decreases body.len() - pos,
{
    let delim = part_delim(bnd);
    lemma_find_in_range(body, header_end_pat(), pos, body.len() as int);
    let h = spec_find(body, header_end_pat(), pos, body.len() as int).unwrap();
    let hend = h + 4;
    lemma_find_in_range(body, delim, hend, body.len() as int);
    let d = spec_find(body, delim, hend, body.len() as int).unwrap();
    let hm = spec_headers(body, pos, h).unwrap();
    let plen = d - hend;
    let fld = FieldModel {
        name: hm.name,
        file_name: hm.file_name,
        content_type: hm.content_type,
        bytes: body.subrange(hend, d),
    };
    let after = d + delim.len();
    assert(acc.push(fld).drop_last() =~= acc);
    if after + 2 <= body.len() && body[after] == DASH && body[after + 1] == DASH {
        // the close marker: this part is the last field
        assert(fs == acc.push(fld));
        assert(acc.push(fld).subrange(0, acc.len() as int) =~= acc);
    } else {
        // the part is followed by another: induct over the rest
        lemma_parts_success(body, bnd, mt, mf, after + 2, acc.push(fld), fs);
        assert(fs.subrange(0, (acc.len() + 1) as int) == acc.push(fld));
        assert(fs.subrange(0, acc.len() as int) =~= fs.subrange(0, (acc.len() + 1) as int)
            .subrange(0, acc.len() as int));
        assert(fs.subrange(0, (acc.len() + 1) as int).subrange(0, acc.len() as int) =~= acc.push(
            fld,
        ).subrange(0, acc.len() as int));
        assert(acc.push(fld).subrange(0, acc.len() as int) =~= acc);
        assert(fs[acc.len() as int] == fs.subrange(0, (acc.len() + 1) as int)[acc.len() as int]);
    }
}

/// A successful decode respects both bounds: every `"file"` field's payload
/// is within the per-file bound, and the decoded payloads together are
/// within the total bound. An oversized upload is never among the decoded
/// fields.
pub proof fn lemma_success_within_limits(
    ct: Seq<u8>,
    body: Seq<u8>,
    mt: int,
    mf: int,
    fs: Seq<FieldModel>,
)
    requires
        spec_decode(ct, body, mt, mf) == DecodeModel::Success(fs),
    ensures
        forall|i: int|
            0 <= i < fs.len() ==> (fs[i].name == file_field_name() ==> fs[i].bytes.len() <= mf),
        payload_total(fs) <= mt,
{
    let bnd = spec_boundary(ct).unwrap();
    let p = bnd.len() + 2 as int;
    if body[p as int] == DASH && body[p + 1 as int] == DASH {
        assert(fs =~= Seq::<FieldModel>::empty());
    } else {
        lemma_parts_success(body, bnd, mt, mf, p + 2, Seq::empty(), fs);
        assert(fs.subrange(0, 0) =~= Seq::<FieldModel>::empty());
    }
}

fn multipart_vec() -> (r: Vec<u8>)
    ensures
        r@ == multipart_pat(),
{
    let mut v: Vec<u8> = Vec::new();
    v.push(109);
    v.push(117);
    v.push(108);
    v.push(116);
    v.push(105);
    v.push(112);
    v.push(97);
    v.push(114);
    v.push(116);
    v.push(47);
    v.push(102);
    v.push(111);
    v.push(114);
    v.push(109);
    v.push(45);
    v.push(100);
    v.push(97);
    v.push(116);
    v.push(97);
    proof {
        assert(v@ =~= multipart_pat());
    }
    v
}

fn boundary_vec() -> (r: Vec<u8>)
    ensures
        r@ == boundary_pat(),
{
    let mut v: Vec<u8> = Vec::new();
    v.push(98);
    v.push(111);
    v.push(117);
    v.push(110);
    v.push(100);
    v.push(97);
    v.push(114);
    v.push(121);
    v.push(61);
    proof {
        assert(v@ =~= boundary_pat());
    }
    v
}

fn semi_vec() -> (r: Vec<u8>)
    ensures
        r@ == semi_pat(),
{
    let mut v: Vec<u8> = Vec::new();
    v.push(59);
    proof {
        assert(v@ =~= semi_pat());
    }
    v
}

fn crlf_vec() -> (r: Vec<u8>)
    ensures
        r@ == crlf_pat(),
{
    let mut v: Vec<u8> = Vec::new();
    v.push(CR);
    v.push(LF);
    proof {
        assert(v@ =~= crlf_pat());
    }
    v
}

fn header_end_vec() -> (r: Vec<u8>)
    ensures
        r@ == header_end_pat(),
{
    let mut v: Vec<u8> = Vec::new();
    v.push(CR);
    v.push(LF);
    v.push(CR);
    v.push(LF);
    proof {
        assert(v@ =~= header_end_pat());
    }
    v
}

fn quote_vec() -> (r: Vec<u8>)
    ensures
        r@ == quote_pat(),
{
    let mut v: Vec<u8> = Vec::new();
    v.push(34);
    proof {
        assert(v@ =~= quote_pat());
    }
    v
}

fn name_vec() -> (r: Vec<u8>)
    ensures
        r@ == name_pat(),
{
    let mut v: Vec<u8> = Vec::new();
    v.push(59);
    v.push(32);
    v.push(110);
    v.push(97);
    v.push(109);
    v.push(101);
    v.push(61);
    v.push(34);
    proof {
        assert(v@ =~= name_pat());
    }
    v
}

fn filename_vec() -> (r: Vec<u8>)
    ensures
        r@ == filename_pat(),
{
    let mut v: Vec<u8> = Vec::new();
    v.push(59);
    v.push(32);
    v.push(102);
    v.push(105);
    v.push(108);
    v.push(101);
    v.push(110);
    v.push(97);
    v.push(109);
    v.push(101);
    v.push(61);
    v.push(34);
    proof {
        assert(v@ =~= filename_pat());
    }
    v
}

fn content_type_vec() -> (r: Vec<u8>)
    ensures
        r@ == content_type_pat(),
{
    let mut v: Vec<u8> = Vec::new();
    v.push(67);
    v.push(111);
    v.push(110);
    v.push(116);
    v.push(101);
    v.push(110);
    v.push(116);
    v.push(45);
    v.push(84);
    v.push(121);
    v.push(112);
    v.push(101);
    v.push(58);
    v.push(32);
    proof {
        assert(v@ =~= content_type_pat());
    }
    v
}

/// The reserved field name `"file"`, as bytes.
pub fn file_field_vec() -> (r: Vec<u8>)
    ensures
        r@ == file_field_name(),
{
    let mut v: Vec<u8> = Vec::new();
    v.push(102);
    v.push(105);
    v.push(108);
    v.push(101);
    proof {
        assert(v@ =~= file_field_name());
    }
    v
}

fn first_delim_vec(bnd: &Vec<u8>) -> (r: Vec<u8>)
    ensures
        r@ == first_delim(bnd@),
{
    let mut v: Vec<u8> = Vec::new();
    v.push(DASH);
    v.push(DASH);
    let mut i: usize = 0;
    while i < bnd.len()
        invariant
            i <= bnd@.len(),
            v@ == seq![DASH, DASH] + bnd@.subrange(0, i as int),
        decreases bnd@.len() - i,
    {
        v.push(bnd[i]);
        assert(v@ =~= seq![DASH, DASH] + bnd@.subrange(0, i + 1 as int));
        i = i + 1;
    }
    proof {
        assert(bnd@.subrange(0, bnd@.len() as int) =~= bnd@);
    }
    v
}

fn part_delim_vec(bnd: &Vec<u8>) -> (r: Vec<u8>)
    ensures
        r@ == part_delim(bnd@),
{
    let mut v: Vec<u8> = Vec::new();
    v.push(CR);
    v.push(LF);
    v.push(DASH);
    v.push(DASH);
    let mut i: usize = 0;
    while i < bnd.len()
        invariant
            i <= bnd@.len(),
            v@ == seq![CR, LF, DASH, DASH] + bnd@.subrange(0, i as int),
        decreases bnd@.len() - i,
    {
        v.push(bnd[i]);
        assert(v@ =~= seq![CR, LF, DASH, DASH] + bnd@.subrange(0, i + 1 as int));
        i = i + 1;
    }
    proof {
        assert(bnd@.subrange(0, bnd@.len() as int) =~= bnd@);
    }
    v
}

/// One part's parsed headers.
pub struct PartHeaders {
    pub name: Vec<u8>,
    pub file_name: Option<Vec<u8>>,
    pub content_type: Option<Vec<u8>>,
}

impl View for PartHeaders {
    type V = HeaderModel;

    open spec fn view(&self) -> HeaderModel {
        HeaderModel {
            name: self.name@,
            file_name: match self.file_name {
                Some(v) => Some(v@),
                None => None,
            },
            content_type: match self.content_type {
                Some(v) => Some(v@),
                None => None,
            },
        }
    }
}

fn parse_content_type(body: &Vec<u8>, hs: usize, he: usize) -> (r: Option<Vec<u8>>)
    requires
        hs <= he,
        he <= body@.len(),
    ensures
        match r {
            Some(v) => spec_content_type(body@, hs as int, he as int) == Some(v@),
            None => spec_content_type(body@, hs as int, he as int).is_none(),
        },
{
    let ctp = content_type_vec();
    match find_in(body, &ctp, hs, he) {
        None => None,
        Some(m) => {
            let vs = m + ctp.len();
            let crlf = crlf_vec();
            let ve = match find_in(body, &crlf, vs, he) {
                Some(j) => j,
                None => he,
            };
            Some(copy_range(body, vs, ve))
        },
    }
}

fn parse_headers(body: &Vec<u8>, hs: usize, he: usize) -> (r: Option<PartHeaders>)
    requires
        hs <= he,
        he <= body@.len(),
    ensures
        match r {
            Some(ph) => spec_headers(body@, hs as int, he as int) == Some(ph@),
            None => spec_headers(body@, hs as int, he as int).is_none(),
        },
{
    let np = name_vec();
    let qp = quote_vec();
    match find_in(body, &np, hs, he) {
        None => None,
        Some(i) => {
            let ns = i + np.len();
            match find_in(body, &qp, ns, he) {
                None => None,
                Some(ne) => {
                    let name = copy_range(body, ns, ne);
                    let fp = filename_vec();
                    match find_in(body, &fp, hs, he) {
                        None => Some(PartHeaders {
                            name,
                            file_name: None,
                            content_type: parse_content_type(body, hs, he),
                        }),
                        Some(k) => {
                            let fs = k + fp.len();
                            match find_in(body, &qp, fs, he) {
                                None => None,
                                Some(fe) => Some(PartHeaders {
                                    name,
                                    file_name: Some(copy_range(body, fs, fe)),
                                    content_type: parse_content_type(body, hs, he),
                                }),
                            }
                        },
                    }
                },
            }
        },
    }
}

fn extract_boundary(ct: &Vec<u8>) -> (r: Option<Vec<u8>>)
    ensures
        match r {
            Some(v) => spec_boundary(ct@) == Some(v@),
            None => spec_boundary(ct@).is_none(),
        },
{
    let mp = multipart_vec();
    if !match_at_exec(ct, &mp, 0) {
        return None;
    }
    let bp = boundary_vec();
    match find_in(ct, &bp, 0, ct.len()) {
        None => None,
        Some(i) => {
            let s = i + bp.len();
            let sp = semi_vec();
            let e = match find_in(ct, &sp, s, ct.len()) {
                Some(j) => j,
                None => ct.len(),
            };
            if s < e {
                let ghost raw = ct@.subrange(s as int, e as int);
                if e - s >= 2 && ct[s] == 34 && ct[e - 1] == 34 {
                    if e - s > 2 {
                        let inner = copy_range(ct, s + 1, e - 1);
                        proof {
                            assert(inner@ =~= raw.subrange(1, raw.len() as int - 1));
                        }
                        Some(inner)
                    } else {
                        None
                    }
                } else {
                    Some(copy_range(ct, s, e))
                }
            } else {
                None
            }
        },
    }
}

fn decode_body(body: &Vec<u8>, bnd: &Vec<u8>, mt: u64, mf: u64) -> (r: DecodeOutcome)
    ensures
        r@ == spec_decode_body(body@, bnd@, mt as int, mf as int),
{
    let d0 = first_delim_vec(bnd);
    if !match_at_exec(body, &d0, 0) {
        let cut: usize = if d0.len() > body.len() {
            body.len()
        } else if body.len() - d0.len() < 2 {
            body.len()
        } else {
            d0.len() + 2
        };
        if cut as u64 > mt {
            return DecodeOutcome::Failure(DecodeFailureKind::TotalTooLarge);
        }
        return DecodeOutcome::Failure(DecodeFailureKind::IncompleteBody);
    }
    if body.len() - d0.len() < 2 {
        if body.len() as u64 > mt {
            return DecodeOutcome::Failure(DecodeFailureKind::TotalTooLarge);
        }
        return DecodeOutcome::Failure(DecodeFailureKind::IncompleteBody);
    }
    let p = d0.len();
    if body[p] == DASH && body[p + 1] == DASH {
        if (p + 2) as u64 > mt {
            return DecodeOutcome::Failure(DecodeFailureKind::TotalTooLarge);
        }
        let fields: Vec<DecodedField> = Vec::new();
        proof {
            crate::fields::lemma_fields_view_empty();
        }
        return DecodeOutcome::Success(fields);
    }
    if !(body[p] == CR && body[p + 1] == LF) {
        if (p + 2) as u64 > mt {
            return DecodeOutcome::Failure(DecodeFailureKind::TotalTooLarge);
        }
        return DecodeOutcome::Failure(DecodeFailureKind::IncompleteBody);
    }
    if (p + 2) as u64 > mt {
        return DecodeOutcome::Failure(DecodeFailureKind::TotalTooLarge);
    }
    let mut pos: usize = p + 2;
    let mut fields: Vec<DecodedField> = Vec::new();
    let delim = part_delim_vec(bnd);
    let hep = header_end_vec();
    let file_name_lit = file_field_vec();
    proof {
        crate::fields::lemma_fields_view_empty();
    }
    loop
        invariant
            pos <= body@.len(),
            delim@ == part_delim(bnd@),
            hep@ == header_end_pat(),
            file_name_lit@ == file_field_name(),
            spec_decode_body(body@, bnd@, mt as int, mf as int) == spec_parts(
                body@,
                bnd@,
                mt as int,
                mf as int,
                pos as int,
                fields_view(fields@),
            ),
        decreases body@.len() - pos,
    {
        let ghost fv = fields_view(fields@);
        match find_in(body, &hep, pos, body.len()) {
            None => {
                if body.len() as u64 > mt {
                    return DecodeOutcome::Failure(DecodeFailureKind::TotalTooLarge);
                }
                return DecodeOutcome::Failure(DecodeFailureKind::IncompleteBody);
            },
            Some(h) => {
                let hend = h + 4;
                if hend as u64 > mt {
                    return DecodeOutcome::Failure(DecodeFailureKind::TotalTooLarge);
                }
                match parse_headers(body, pos, h) {
                    None => {
                        return DecodeOutcome::Failure(DecodeFailureKind::IncompleteBody);
                    },
                    Some(hdr) => {
                        let is_file = bytes_eq(&hdr.name, &file_name_lit);
                        let rt: u64 = mt - (hend as u64);
                        match find_in(body, &delim, hend, body.len()) {
                            None => {
                                let avail = body.len() - hend;
                                if is_file && avail as u64 > mf && mf <= rt {
                                    return DecodeOutcome::Failure(
                                        DecodeFailureKind::FieldTooLarge,
                                    );
                                } else if avail as u64 > rt {
                                    return DecodeOutcome::Failure(
                                        DecodeFailureKind::TotalTooLarge,
                                    );
                                } else if is_file && avail as u64 > mf {
                                    return DecodeOutcome::Failure(
                                        DecodeFailureKind::FieldTooLarge,
                                    );
                                } else {
                                    return DecodeOutcome::Failure(
                                        DecodeFailureKind::IncompleteBody,
                                    );
                                }
                            },
                            Some(d) => {
                                let plen = d - hend;
                                if is_file && plen as u64 > mf && mf <= rt {
                                    return DecodeOutcome::Failure(
                                        DecodeFailureKind::FieldTooLarge,
                                    );
                                } else if plen as u64 > rt {
                                    return DecodeOutcome::Failure(
                                        DecodeFailureKind::TotalTooLarge,
                                    );
                                } else if is_file && plen as u64 > mf {
                                    return DecodeOutcome::Failure(
                                        DecodeFailureKind::FieldTooLarge,
                                    );
                                }
                                let payload = copy_range(body, hend, d);
                                let fld = DecodedField {
                                    field_name: hdr.name,
                                    file_name: hdr.file_name,
                                    content_type: hdr.content_type,
                                    bytes: payload,
                                };
                                let after = d + delim.len();
                                if body.len() - after >= 2 && body[after] == DASH
                                    && body[after + 1] == DASH {
                                    if (after + 2) as u64 > mt {
                                        return DecodeOutcome::Failure(
                                            DecodeFailureKind::TotalTooLarge,
                                        );
                                    }
                                    proof {
                                        crate::fields::lemma_fields_view_push(fields@, fld);
                                    }
                                    fields.push(fld);
                                    return DecodeOutcome::Success(fields);
                                } else if body.len() - after >= 2 && body[after] == CR
                                    && body[after + 1] == LF {
                                    if (after + 2) as u64 > mt {
                                        return DecodeOutcome::Failure(
                                            DecodeFailureKind::TotalTooLarge,
                                        );
                                    }
                                    proof {
                                        crate::fields::lemma_fields_view_push(fields@, fld);
                                    }
                                    fields.push(fld);
                                    pos = after + 2;
                                } else {
                                    let cut: usize = if body.len() - after >= 2 {
                                        after + 2
                                    } else {
                                        body.len()
                                    };
                                    if cut as u64 > mt {
                                        return DecodeOutcome::Failure(
                                            DecodeFailureKind::TotalTooLarge,
                                        );
                                    }
                                    return DecodeOutcome::Failure(
                                        DecodeFailureKind::IncompleteBody,
                                    );
                                }
                            },
                        }
                    },
                }
            },
        }
    }
}

/// Decodes one request: the boundary is taken from the content-type header,
/// then the body is framed into fields with the limits enforced as the body
/// is consumed. The result is exactly what [`spec_decode`] states for these
/// inputs.
pub fn decode_multipart(content_type: &Vec<u8>, body: &Vec<u8>, limits: &UploadLimits) -> (r:
    DecodeOutcome)
    ensures
        r@ == spec_decode(
            content_type@,
            body@,
            limits.max_total_bytes as int,
            limits.max_file_bytes as int,
        ),
{
    match extract_boundary(content_type) {
        None => DecodeOutcome::Failure(DecodeFailureKind::MalformedRequest),
        Some(bnd) => decode_body(body, &bnd, limits.max_total_bytes, limits.max_file_bytes),
    }
}

} // verus!
