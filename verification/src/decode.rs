//! The decoder: the meaning of a raw byte buffer as a specification,
//! and the executable parser proved to return exactly that meaning.

use vstd::prelude::*;
use vstd::slice::{slice_index_get, slice_subrange, slice_to_vec};
use crate::bytes::{gen_checksum, le16_val, spec_checksum};
use crate::data::{AppVar, AppVarView, VarEntry, VarEntryView, entries_wire_len};
use crate::encode::spec_signature;

verus! {

/// The stage of decoding at which a buffer was rejected.
#[derive(Clone, Copy, Debug, PartialEq, Eq, Structural)]
pub enum DecodeError {
    /// The buffer does not start with the 11-byte file signature.
    SignatureMismatch,
    /// The buffer ends before the fixed 56-byte header does.
    TruncatedHeader,
    /// The data section is shorter than its length field claims.
    TruncatedDataSection,
    /// A record does not start with the little-endian marker 13.
    BadMarker,
    /// A record ends before its header or its declared payload does.
    TruncatedRecord,
    /// Checksum verification was requested but the two trailing
    /// checksum bytes are missing.
    TruncatedChecksum,
    /// The trailing checksum disagrees with the data-section bytes.
    ChecksumMismatch,
}

/// A record is archived exactly when its flag byte is 0x80; every
/// other flag byte, bit combinations included, means not archived.
pub open spec fn spec_archived(flag: u8) -> bool {
    flag == 0x80
}

/// Meaning of a data-section slice: the records it holds, parsed from
/// the front until the slice is exhausted, or the error met first.
/// Each record is a marker, a little-endian authoritative payload
/// length, type id, name, version, flag byte, a redundant big-endian
/// length that is skipped without validation, and the payload.
pub open spec fn spec_parse_entries(b: Seq<u8>) -> Result<Seq<VarEntryView>, DecodeError>
    decreases b.len(),
{
    if b.len() == 0 {
        Ok(Seq::empty())
    } else if b.len() < 2 {
        Err(DecodeError::TruncatedRecord)
    } else if le16_val(b[0], b[1]) != 13 {
        Err(DecodeError::BadMarker)
    } else if b.len() < 17 {
        Err(DecodeError::TruncatedRecord)
    } else if b.len() < 17 + le16_val(b[2], b[3]) {
        Err(DecodeError::TruncatedRecord)
    } else {
        let n = le16_val(b[2], b[3]);
        let e = VarEntryView {
            type_id: b[4],
            data: b.subrange(17, 17 + n),
            name: b.subrange(5, 13),
            archived: spec_archived(b[14]),
            version: b[13],
        };
        match spec_parse_entries(b.skip(17 + n)) {
            Ok(rest) => Ok(seq![e] + rest),
            Err(err) => Err(err),
        }
    }
}

/// Meaning of a whole buffer: the container it holds, or the error met
/// first. The fixed header is signature, product id, comment and the
/// little-endian data-section length; the data section follows; when
/// `verify_checksum` is set, the two bytes after the data section must
/// hold its checksum, and otherwise they are ignored entirely.
pub open spec fn spec_decode(s: Seq<u8>, verify_checksum: bool) -> Result<
    AppVarView,
    DecodeError,
> {
    if s.len() < 11 || s.take(11) != spec_signature() {
        Err(DecodeError::SignatureMismatch)
    } else if s.len() < 56 {
        Err(DecodeError::TruncatedHeader)
    } else if s.len() < 56 + le16_val(s[54], s[55]) {
        Err(DecodeError::TruncatedDataSection)
    } else {
        let l = le16_val(s[54], s[55]);
        match spec_parse_entries(s.subrange(56, 56 + l)) {
            Err(e) => Err(e),
            Ok(entries) => {
                if verify_checksum && s.len() < 58 + l {
                    Err(DecodeError::TruncatedChecksum)
                } else if verify_checksum && le16_val(s[56 + l], s[57 + l]) != spec_checksum(
                    s.subrange(56, 56 + l),
                ) {
                    Err(DecodeError::ChecksumMismatch)
                } else {
                    Ok(
                        AppVarView {
                            comment: s.subrange(12, 54),
                            product_id: s[11],
                            var_entries: entries,
                        },
                    )
                }
            },
        }
    }
}

/// Records parsed from a slice are well formed and fill it exactly.
pub proof fn lemma_parse_entries_wf(b: Seq<u8>)
    requires
        spec_parse_entries(b) is Ok,
    ensures
        forall|i: int|
            0 <= i < spec_parse_entries(b)->Ok_0.len() ==> spec_parse_entries(b)->Ok_0[i].wf(),
        entries_wire_len(spec_parse_entries(b)->Ok_0) == b.len(),
    decreases b.len(),
{
    if b.len() != 0 {
        let n = le16_val(b[2], b[3]);
        lemma_parse_entries_wf(b.skip(17 + n));
        let e = spec_parse_entries(b)->Ok_0[0];
        let rest = spec_parse_entries(b.skip(17 + n))->Ok_0;
        assert(spec_parse_entries(b)->Ok_0 == seq![e] + rest);
        assert((seq![e] + rest).skip(1) =~= rest);
    }
}

/// Reads the unsigned 16-bit little-endian value at `off`.
fn read_le16(b: &[u8], off: usize) -> (r: u16)
    requires
        off + 2 <= b@.len(),
    ensures
        r == le16_val(b@[off as int], b@[off + 1]),
{
    // Binding the slice length to a machine word shows that `off + 1`
    // cannot overflow.
    let total: usize = b.len();
    proof {
        assert(off + 2 <= total);
    }
    let lo: u8 = *slice_index_get(b, off);
    let hi: u8 = *slice_index_get(b, off + 1);
    lo as u16 + (hi as u16) * 256
}

/// Copies the bytes of `b` between `start` and `end` into a vector.
fn copy_range(b: &[u8], start: usize, end: usize) -> (r: Vec<u8>)
    requires
        start <= end,
        end <= b@.len(),
    ensures
        r@ == b@.subrange(start as int, end as int),
{
    slice_to_vec(slice_subrange(b, start, end))
}

/// How the outcome of one parsing step combines with the records
/// already taken from the front of a slice.
spec fn parse_step_ok(
    full: Result<Seq<VarEntryView>, DecodeError>,
    prefix: Seq<VarEntryView>,
    rest: Result<Seq<VarEntryView>, DecodeError>,
) -> bool {
    match rest {
        Ok(tail) => full == Ok::<Seq<VarEntryView>, DecodeError>(prefix + tail),
        Err(e) => full == Err::<Seq<VarEntryView>, DecodeError>(e),
    }
}

/// Parses the records of a data-section slice, front to back, until
/// the slice is exhausted or a record is rejected.
fn parse_entries(b: &[u8]) -> (r: Result<Vec<VarEntry>, DecodeError>)
    ensures
        match r {
            Ok(es) => spec_parse_entries(b@) == Ok::<Seq<VarEntryView>, DecodeError>(
                es.deep_view(),
            ),
            Err(e) => spec_parse_entries(b@) == Err::<Seq<VarEntryView>, DecodeError>(e),
        },
{
    let mut acc: Vec<VarEntry> = Vec::new();
    let mut pos: usize = 0;
    proof {
        assert(acc.deep_view() =~= Seq::<VarEntryView>::empty());
        assert(b@.skip(0) =~= b@);
        match spec_parse_entries(b@) {
            Ok(t) => {
                assert(acc.deep_view() + t =~= t);
            },
            Err(_) => {},
        }
    }
    while pos < b.len()
        invariant
            pos <= b@.len(),
            parse_step_ok(spec_parse_entries(b@), acc.deep_view(), spec_parse_entries(b@.skip(pos as int))),
        decreases b@.len() - pos,
    {
        let ghost tail = b@.skip(pos as int);
        proof {
            assert forall|j: int| 0 <= j < tail.len() implies tail[j] == b@[pos + j] by {}
        }
        let rem: usize = b.len() - pos;
        if rem < 2 {
            return Err(DecodeError::TruncatedRecord);
        }
        let marker: u16 = read_le16(b, pos);
        proof {
            assert(tail[0] == b@[pos as int] && tail[1] == b@[pos + 1]);
        }
        if marker != 13 {
            return Err(DecodeError::BadMarker);
        }
        if rem < 17 {
            return Err(DecodeError::TruncatedRecord);
        }
        let n: usize = read_le16(b, pos + 2) as usize;
        if rem - 17 < n {
            proof {
                assert(tail.len() < 17 + le16_val(tail[2], tail[3]));
            }
            return Err(DecodeError::TruncatedRecord);
        }
        let type_id: u8 = *slice_index_get(b, pos + 4);
        let name: Vec<u8> = copy_range(b, pos + 5, pos + 13);
        let version: u8 = *slice_index_get(b, pos + 13);
        let flag: u8 = *slice_index_get(b, pos + 14);
        let data: Vec<u8> = copy_range(b, pos + 17, pos + 17 + n);
        let entry = VarEntry { type_id, data, name, archived: flag == 0x80, version };
        let ghost pre = acc.deep_view();
        acc.push(entry);
        proof {
            let se = VarEntryView {
                type_id: tail[4],
                data: tail.subrange(17, 17 + n),
                name: tail.subrange(5, 13),
                archived: spec_archived(tail[14]),
                version: tail[13],
            };
            assert(entry@.name =~= se.name);
            assert(entry@.data =~= se.data);
            assert(entry@ =~= se);
            let next = b@.skip(pos + 17 + n);
            assert(tail.skip(17 + n as int) =~= next);
            assert(spec_parse_entries(tail) == match spec_parse_entries(next) {
                Ok(rest) => Ok::<Seq<VarEntryView>, DecodeError>(seq![se] + rest),
                Err(err) => Err::<Seq<VarEntryView>, DecodeError>(err),
            });
            assert(acc.deep_view() =~= pre.push(entry@));
            match spec_parse_entries(next) {
                Ok(rest) => {
                    assert(pre + (seq![se] + rest) =~= acc.deep_view() + rest);
                },
                Err(_) => {},
            }
        }
        pos = pos + 17 + n;
    }
    proof {
        assert(b@.skip(pos as int) =~= Seq::<u8>::empty());
        assert(spec_parse_entries(Seq::<u8>::empty()) == Ok::<Seq<VarEntryView>, DecodeError>(
            Seq::empty(),
        ));
        assert(acc.deep_view() + Seq::<VarEntryView>::empty() =~= acc.deep_view());
    }
    Ok(acc)
}

/// Decodes a raw buffer into a container. The fixed header is checked
/// and consumed, the data section is sliced out by its little-endian
/// length field and parsed into records, and, when `verify_checksum`
/// is set, the two bytes after the data section are compared against
/// the additive checksum of the data-section bytes; when it is not
/// set, those bytes are ignored. The result is exactly what
/// [`spec_decode`] assigns to the buffer, and a decoded container is
/// well formed, so it can be re-encoded.
pub fn parse_appvar(input: &[u8], verify_checksum: bool) -> (r: Result<AppVar, DecodeError>)
    ensures
        match r {
            Ok(av) => spec_decode(input@, verify_checksum) == Ok::<AppVarView, DecodeError>(av@)
                && av.wf(),
            Err(e) => spec_decode(input@, verify_checksum) == Err::<AppVarView, DecodeError>(e),
        },
{
    if input.len() < 11 {
        return Err(DecodeError::SignatureMismatch);
    }
    let sig: [u8; 11] = [0x2a, 0x2a, 0x54, 0x49, 0x38, 0x33, 0x46, 0x2a, 0x1a, 0x0a, 0x00];
    proof {
        assert(sig@ =~= spec_signature());
    }
    let mut i: usize = 0;
    while i < 11
        invariant
            i <= 11,
            input@.len() >= 11,
            sig@ == spec_signature(),
            forall|j: int| 0 <= j < i ==> input@[j] == spec_signature()[j],
        decreases 11 - i,
    {
        if *slice_index_get(input, i) != sig[i] {
            proof {
                assert(input@.take(11)[i as int] != spec_signature()[i as int]);
            }
            return Err(DecodeError::SignatureMismatch);
        }
        i = i + 1;
    }
    proof {
        assert(input@.take(11) =~= spec_signature());
    }
    if input.len() < 56 {
        return Err(DecodeError::TruncatedHeader);
    }
    let l: usize = read_le16(input, 54) as usize;
    if input.len() - 56 < l {
        return Err(DecodeError::TruncatedDataSection);
    }
    let body: &[u8] = slice_subrange(input, 56, 56 + l);
    let entries: Vec<VarEntry> = match parse_entries(body) {
        Ok(es) => es,
        Err(e) => {
            return Err(e);
        },
    };
    if verify_checksum {
        if input.len() - (56 + l) < 2 {
            return Err(DecodeError::TruncatedChecksum);
        }
        let stored: u16 = read_le16(input, 56 + l);
        let computed: u16 = gen_checksum(body);
        if stored != computed {
            return Err(DecodeError::ChecksumMismatch);
        }
    }
    let comment: Vec<u8> = copy_range(input, 12, 54);
    let product_id: u8 = *slice_index_get(input, 11);
    let av = AppVar { comment, product_id, var_entries: entries };
    proof {
        lemma_parse_entries_wf(body@);
        assert(av@ =~= spec_decode(input@, verify_checksum)->Ok_0);
    }
    Ok(av)
}

} // verus!
