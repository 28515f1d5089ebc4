//! Laws of the codec: encoding then decoding returns the container it
//! was given, decoding without checksum verification never reads past
//! the data section, and the redundant big-endian length field of a
//! record is never read.

use vstd::prelude::*;
use crate::bytes::{le16_val, lemma_u16_le_val, spec_checksum};
use crate::data::VarEntryView;
use crate::data::AppVarView;
use crate::decode::{spec_archived, spec_decode, spec_parse_entries, DecodeError};
use crate::encode::{
    lemma_encode_entries_len,
    lemma_encode_entry_len,
    spec_encode,
    spec_encode_entries,
    spec_encode_entry,
    spec_flag_byte,
    spec_signature,
};

verus! {

/// Parsing the wire image of a sequence of well-formed records yields
/// exactly that sequence.
pub proof fn lemma_entries_round_trip(s: Seq<VarEntryView>)
    requires
        forall|i: int| 0 <= i < s.len() ==> s[i].wf(),
    ensures
        spec_parse_entries(spec_encode_entries(s)) == Ok::<Seq<VarEntryView>, DecodeError>(s),
    decreases s.len(),
{
    if s.len() == 0 {
        assert(s =~= Seq::<VarEntryView>::empty());
    } else {
        let e = s[0];
        assert(e.wf());
        let n = e.data.len() as int;
        let n16 = e.data.len() as u16;
        let he = spec_encode_entry(e);
        let rest = spec_encode_entries(s.skip(1));
        let b = spec_encode_entries(s);
        assert(b == he + rest);
        lemma_encode_entry_len(e);
        lemma_u16_le_val(n16);
        lemma_u16_le_val(13);
        assert(le16_val(b[0], b[1]) == 13);
        assert(le16_val(b[2], b[3]) == n);
        assert(b[4] == e.type_id);
        assert forall|j: int| 0 <= j < 8 implies b[5 + j] == e.name[j] by {
            assert(he[5 + j] == e.name[j]);
        }
        assert(b.subrange(5, 13) =~= e.name);
        assert(b[13] == e.version);
        assert(b[14] == spec_flag_byte(e.archived));
        assert forall|j: int| 0 <= j < n implies b[17 + j] == e.data[j] by {
            assert(he[17 + j] == e.data[j]);
        }
        assert(b.subrange(17, 17 + n) =~= e.data);
        assert(spec_archived(spec_flag_byte(e.archived)) == e.archived);
        assert(b.skip(17 + n) =~= rest);
        assert(forall|i: int| 0 <= i < s.skip(1).len() ==> s.skip(1)[i].wf());
        lemma_entries_round_trip(s.skip(1));
        let pe = VarEntryView {
            type_id: b[4],
            data: b.subrange(17, 17 + n),
            name: b.subrange(5, 13),
            archived: spec_archived(b[14]),
            version: b[13],
        };
        assert(pe =~= e);
        assert(spec_parse_entries(b) == Ok::<Seq<VarEntryView>, DecodeError>(
            seq![pe] + s.skip(1),
        ));
        assert(seq![pe] + s.skip(1) =~= s);
    }
}

/// Round trip: decoding the encoding of a well-formed container
/// succeeds, with or without checksum verification, and yields the
/// container itself, field for field and record for record.
pub proof fn lemma_round_trip(c: AppVarView, verify_checksum: bool)
    requires
        c.wf(),
    ensures
        spec_decode(spec_encode(c), verify_checksum) == Ok::<AppVarView, DecodeError>(c),
{
    let body = spec_encode_entries(c.var_entries);
    lemma_encode_entries_len(c.var_entries);
    let l = body.len() as int;
    let l16 = body.len() as u16;
    let ck = spec_checksum(body);
    let s = spec_encode(c);
    assert(s.len() == 58 + l);
    lemma_u16_le_val(l16);
    lemma_u16_le_val(ck);
    assert forall|j: int| 0 <= j < 11 implies s[j] == spec_signature()[j] by {}
    assert(s.take(11) =~= spec_signature());
    assert(s[11] == c.product_id);
    assert forall|j: int| 0 <= j < 42 implies s[12 + j] == c.comment[j] by {}
    assert(s.subrange(12, 54) =~= c.comment);
    assert(le16_val(s[54], s[55]) == l);
    assert forall|j: int| 0 <= j < l implies s[56 + j] == body[j] by {}
    assert(s.subrange(56, 56 + l) =~= body);
    lemma_entries_round_trip(c.var_entries);
    assert(le16_val(s[56 + l], s[57 + l]) == ck);
    let d = AppVarView {
        comment: s.subrange(12, 54),
        product_id: s[11],
        var_entries: c.var_entries,
    };
    assert(d =~= c);
}

/// End of the data section: the fixed header plus the little-endian
/// length field it carries.
pub open spec fn spec_payload_end(s: Seq<u8>) -> int {
    56 + le16_val(s[54], s[55])
}

proof fn lemma_decode_prefix(s: Seq<u8>, t: Seq<u8>)
    requires
        spec_decode(s, true) is Ok,
        t.len() >= spec_payload_end(s),
        t.take(spec_payload_end(s)) == s.take(spec_payload_end(s)),
    ensures
        spec_decode(t, false) == spec_decode(s, true),
{
    let p = spec_payload_end(s);
    let l = le16_val(s[54], s[55]);
    assert(s.len() >= p);
    assert forall|j: int| 0 <= j < p implies t[j] == s[j] by {
        assert(t.take(p)[j] == s.take(p)[j]);
    }
    assert(t.take(11) =~= s.take(11));
    assert(le16_val(t[54], t[55]) == l);
    assert(t.subrange(56, 56 + l) =~= s.subrange(56, 56 + l));
    assert(t.subrange(12, 54) =~= s.subrange(12, 54));
    let dt = AppVarView {
        comment: t.subrange(12, 54),
        product_id: t[11],
        var_entries: spec_parse_entries(t.subrange(56, 56 + l))->Ok_0,
    };
    let ds = spec_decode(s, true)->Ok_0;
    assert(dt =~= ds);
}

/// Checksum verification is a decode-time toggle only: if a buffer
/// decodes with verification, then any buffer that agrees with it up
/// to the end of the data section — in particular one whose trailing
/// checksum bytes are corrupted or missing — decodes without
/// verification to the very same container.
pub proof fn lemma_checksum_skipped(s: Seq<u8>, t: Seq<u8>)
    requires
        spec_decode(s, true) is Ok,
        t.len() >= spec_payload_end(s),
        t.take(spec_payload_end(s)) == s.take(spec_payload_end(s)),
    ensures
        spec_decode(t, false) == spec_decode(s, true),
        spec_decode(s, false) == spec_decode(s, true),
{
    lemma_decode_prefix(s, t);
    lemma_decode_prefix(s, s);
}

/// Whether byte `i` of a data-section slice lies in the redundant
/// big-endian length field of one of its records.
pub open spec fn is_redundant_pos(b: Seq<u8>, i: int) -> bool
    decreases b.len(),
{
    if b.len() >= 17 && le16_val(b[0], b[1]) == 13 && 17 + le16_val(b[2], b[3]) <= b.len() {
        let n = le16_val(b[2], b[3]);
        i == 15 || i == 16 || (i >= 17 + n && is_redundant_pos(b.skip(17 + n), i - 17 - n))
    } else {
        false
    }
}

/// The redundant big-endian length field of a record is never read:
/// two equally long data-section slices that differ only inside
/// redundant length fields parse to the very same outcome, records and
/// errors alike.
pub proof fn lemma_redundant_length_ignored(b1: Seq<u8>, b2: Seq<u8>)
    requires
        b1.len() == b2.len(),
        forall|i: int| 0 <= i < b1.len() && b1[i] != b2[i] ==> is_redundant_pos(b1, i),
    ensures
        spec_parse_entries(b1) == spec_parse_entries(b2),
    decreases b1.len(),
{
    if b1.len() == 0 {
    } else if b1.len() >= 17 && le16_val(b1[0], b1[1]) == 13 && 17 + le16_val(b1[2], b1[3])
        <= b1.len() {
        let n = le16_val(b1[2], b1[3]);
        assert forall|i: int| 0 <= i < 15 implies b1[i] == b2[i] by {}
        assert forall|i: int| 17 <= i < 17 + n implies b1[i] == b2[i] by {}
        assert(le16_val(b2[0], b2[1]) == 13);
        assert(le16_val(b2[2], b2[3]) == n);
        let t1 = b1.skip(17 + n);
        let t2 = b2.skip(17 + n);
        assert forall|j: int| 0 <= j < t1.len() && t1[j] != t2[j] implies is_redundant_pos(
            t1,
            j,
        ) by {
            assert(b1[17 + n + j] != b2[17 + n + j]);
            assert(is_redundant_pos(b1, 17 + n + j));
        }
        lemma_redundant_length_ignored(t1, t2);
        let e1 = VarEntryView {
            type_id: b1[4],
            data: b1.subrange(17, 17 + n),
            name: b1.subrange(5, 13),
            archived: spec_archived(b1[14]),
            version: b1[13],
        };
        let e2 = VarEntryView {
            type_id: b2[4],
            data: b2.subrange(17, 17 + n),
            name: b2.subrange(5, 13),
            archived: spec_archived(b2[14]),
            version: b2[13],
        };
        assert(e1.name =~= e2.name);
        assert(e1.data =~= e2.data);
        assert(e1 =~= e2);
    } else {
        assert forall|i: int| 0 <= i < b1.len() implies b1[i] == b2[i] by {}
        assert(b1 =~= b2);
    }
}

} // verus!
