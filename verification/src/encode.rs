//! The encoder: the wire image of a container as a specification, and
//! the executable encoder proved to produce exactly that image.

use vstd::prelude::*;
use crate::bytes::{gen_checksum, spec_checksum, u16_be, u16_le};
use crate::data::{AppVar, AppVarView, VarEntryView, entries_wire_len};

verus! {

/// The 11-byte file signature: `**TI83F*` followed by 0x1A, 0x0A, 0x00.
pub open spec fn spec_signature() -> Seq<u8> {
    seq![0x2au8, 0x2au8, 0x54u8, 0x49u8, 0x38u8, 0x33u8, 0x46u8, 0x2au8, 0x1au8, 0x0au8, 0x00u8]
}

/// The flag byte written for a record: 0x80 when archived, 0x00 when
/// not.
pub open spec fn spec_flag_byte(archived: bool) -> u8 {
    if archived {
        0x80
    } else {
        0x00
    }
}

/// Wire image of one record: marker 13 (little-endian), payload length
/// (little-endian, authoritative), type id, name, version, flag byte,
/// payload length again (big-endian, redundant), then the payload.
pub open spec fn spec_encode_entry(e: VarEntryView) -> Seq<u8> {
    u16_le(13) + u16_le(e.data.len() as u16) + seq![e.type_id] + e.name
        + seq![e.version, spec_flag_byte(e.archived)] + u16_be(e.data.len() as u16) + e.data
}

/// Wire image of a sequence of records, concatenated in order.
pub open spec fn spec_encode_entries(s: Seq<VarEntryView>) -> Seq<u8>
    decreases s.len(),
{
    if s.len() == 0 {
        Seq::empty()
    } else {
        spec_encode_entry(s[0]) + spec_encode_entries(s.skip(1))
    }
}

/// Wire image of a whole container: signature, product id, comment,
/// data-section length (little-endian), the records, and the checksum
/// of the record bytes (little-endian).
pub open spec fn spec_encode(c: AppVarView) -> Seq<u8> {
    spec_signature() + seq![c.product_id] + c.comment
        + u16_le(spec_encode_entries(c.var_entries).len() as u16)
        + spec_encode_entries(c.var_entries)
        + u16_le(spec_checksum(spec_encode_entries(c.var_entries)))
}

/// A well-formed record's wire image is 17 bytes of header plus its
/// payload.
pub proof fn lemma_encode_entry_len(e: VarEntryView)
    requires
        e.wf(),
    ensures
        spec_encode_entry(e).len() == e.wire_len(),
{
}

/// The wire image of a record sequence is exactly as long as
/// [`entries_wire_len`] says.
pub proof fn lemma_encode_entries_len(s: Seq<VarEntryView>)
    requires
        forall|i: int| 0 <= i < s.len() ==> s[i].wf(),
    ensures
        spec_encode_entries(s).len() == entries_wire_len(s),
    decreases s.len(),
{
    if s.len() > 0 {
        lemma_encode_entry_len(s[0]);
        lemma_encode_entries_len(s.skip(1));
    }
}

/// Appending a record to a sequence appends its wire image to the
/// sequence's wire image.
pub proof fn lemma_encode_entries_push(s: Seq<VarEntryView>, e: VarEntryView)
    ensures
        spec_encode_entries(s.push(e)) == spec_encode_entries(s) + spec_encode_entry(e),
    decreases s.len(),
{
    if s.len() == 0 {
        let t = s.push(e);
        assert(t[0] == e);
        assert(t.skip(1) =~= Seq::<VarEntryView>::empty());
        assert(spec_encode_entries(Seq::<VarEntryView>::empty()) == Seq::<u8>::empty());
        assert(spec_encode_entries(t) == spec_encode_entry(e) + Seq::<u8>::empty());
        assert(spec_encode_entry(e) + Seq::<u8>::empty() =~= Seq::<u8>::empty()
            + spec_encode_entry(e));
        assert(spec_encode_entries(s) == Seq::<u8>::empty());
    } else {
        assert(s.push(e).skip(1) =~= s.skip(1).push(e));
        lemma_encode_entries_push(s.skip(1), e);
        assert(spec_encode_entries(s.push(e)) =~= spec_encode_entries(s) + spec_encode_entry(e));
    }
}

/// Appends the little-endian bytes of a 16-bit value.
fn push_u16_le(out: &mut Vec<u8>, n: u16)
    ensures
        final(out)@ == old(out)@ + u16_le(n),
{
    out.push((n % 256) as u8);
    out.push((n / 256) as u8);
    proof {
        assert(out@ =~= old(out)@ + u16_le(n));
    }
}

/// Appends the big-endian bytes of a 16-bit value.
fn push_u16_be(out: &mut Vec<u8>, n: u16)
    ensures
        final(out)@ == old(out)@ + u16_be(n),
{
    out.push((n / 256) as u8);
    out.push((n % 256) as u8);
    proof {
        assert(out@ =~= old(out)@ + u16_be(n));
    }
}

/// Appends all bytes of a vector.
fn push_bytes(out: &mut Vec<u8>, src: &Vec<u8>)
    ensures
        final(out)@ == old(out)@ + src@,
{
    let mut i: usize = 0;
    while i < src.len()
        invariant
            i <= src@.len(),
            out@ == old(out)@ + src@.take(i as int),
        decreases src@.len() - i,
    {
        out.push(src[i]);
        proof {
            assert(old(out)@ + src@.take(i + 1) =~= (old(out)@ + src@.take(i as int)).push(
                src@[i as int],
            ));
        }
        i = i + 1;
    }
    proof {
        assert(src@.take(src@.len() as int) =~= src@);
    }
}

/// Appends the file signature.
fn push_signature(out: &mut Vec<u8>)
    ensures
        final(out)@ == old(out)@ + spec_signature(),
{
    out.push(0x2a);
    out.push(0x2a);
    out.push(0x54);
    out.push(0x49);
    out.push(0x38);
    out.push(0x33);
    out.push(0x46);
    out.push(0x2a);
    out.push(0x1a);
    out.push(0x0a);
    out.push(0x00);
    proof {
        assert(out@ =~= old(out)@ + spec_signature());
    }
}

impl AppVar {
    /// Encodes the container into its wire format: signature, product
    /// id, comment, little-endian data-section length, the records in
    /// order, and the additive checksum of the record bytes.
    pub fn encode(&self) -> (r: Vec<u8>)
        requires
            self.wf(),
        ensures
            r@ == spec_encode(self@),
    {
        let ghost entries: Seq<VarEntryView> = self.var_entries.deep_view();
        let mut body: Vec<u8> = Vec::new();
        let mut idx: usize = 0;
        while idx < self.var_entries.len()
            invariant
                idx <= self.var_entries@.len(),
                entries == self.var_entries.deep_view(),
                self.wf(),
                body@ == spec_encode_entries(entries.take(idx as int)),
            decreases self.var_entries@.len() - idx,
        {
            let ghost pre = body@;
            let e = &self.var_entries[idx];
            proof {
                assert(entries[idx as int] == e@);
                assert(entries[idx as int].wf());
            }
            push_u16_le(&mut body, 13);
            let len16: u16 = e.data.len() as u16;
            push_u16_le(&mut body, len16);
            body.push(e.type_id);
            push_bytes(&mut body, &e.name);
            body.push(e.version);
            if e.archived {
                body.push(0x80);
            } else {
                body.push(0x00);
            }
            push_u16_be(&mut body, len16);
            push_bytes(&mut body, &e.data);
            proof {
                assert(body@ =~= pre + spec_encode_entry(e@));
                lemma_encode_entries_push(entries.take(idx as int), e@);
                assert(entries.take(idx + 1) =~= entries.take(idx as int).push(e@));
            }
            idx = idx + 1;
        }
        proof {
            assert(entries.take(entries.len() as int) =~= entries);
            lemma_encode_entries_len(entries);
        }
        let mut out: Vec<u8> = Vec::new();
        push_signature(&mut out);
        out.push(self.product_id);
        push_bytes(&mut out, &self.comment);
        push_u16_le(&mut out, body.len() as u16);
        let ck: u16 = gen_checksum(body.as_slice());
        push_bytes(&mut out, &body);
        push_u16_le(&mut out, ck);
        proof {
            assert(out@ =~= spec_encode(self@));
        }
        out
    }
}

} // verus!
