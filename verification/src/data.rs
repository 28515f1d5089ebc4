//! The decoded container and its records, with their mathematical views
//! and well-formedness conditions.

use vstd::prelude::*;

verus! {

/// One variable record of a container: an opaque type tag, an 8-byte
/// name, a version byte, an archived flag, and an opaque payload.
#[derive(Clone, Debug, PartialEq, Eq)]
pub struct VarEntry {
    pub type_id: u8,
    pub data: Vec<u8>,
    pub name: Vec<u8>,
    pub archived: bool,
    pub version: u8,
}

/// Mathematical view of a [`VarEntry`].
#[verifier::ext_equal]
pub struct VarEntryView {
    pub type_id: u8,
    pub data: Seq<u8>,
    pub name: Seq<u8>,
    pub archived: bool,
    pub version: u8,
}

impl View for VarEntry {
    type V = VarEntryView;

    open spec fn view(&self) -> VarEntryView {
        VarEntryView {
            type_id: self.type_id,
            data: self.data@,
            name: self.name@,
            archived: self.archived,
            version: self.version,
        }
    }
}

impl DeepView for VarEntry {
    type V = VarEntryView;

    open spec fn deep_view(&self) -> VarEntryView {
        self.view()
    }
}

impl VarEntryView {
    /// The name holds exactly 8 bytes and the payload length fits the
    /// record's 16-bit length field.
    pub open spec fn wf(self) -> bool {
        &&& self.name.len() == 8
        &&& self.data.len() <= 0xffff
    }

    /// Number of bytes this record occupies on the wire: a 17-byte
    /// header followed by the payload.
    pub open spec fn wire_len(self) -> int {
        17 + self.data.len() as int
    }
}

/// Total number of bytes a sequence of records occupies on the wire.
pub open spec fn entries_wire_len(s: Seq<VarEntryView>) -> int
    decreases s.len(),
{
    if s.len() == 0 {
        0
    } else {
        s[0].wire_len() + entries_wire_len(s.skip(1))
    }
}

/// A decoded AppVar container: a product-id byte, a 42-byte comment,
/// and an ordered sequence of variable records.
#[derive(Clone, Debug, PartialEq, Eq)]
pub struct AppVar {
    pub comment: Vec<u8>,
    pub product_id: u8,
    pub var_entries: Vec<VarEntry>,
}

/// Mathematical view of an [`AppVar`].
#[verifier::ext_equal]
pub struct AppVarView {
    pub comment: Seq<u8>,
    pub product_id: u8,
    pub var_entries: Seq<VarEntryView>,
}

impl View for AppVar {
    type V = AppVarView;

    open spec fn view(&self) -> AppVarView {
        AppVarView {
            comment: self.comment@,
            product_id: self.product_id,
            var_entries: self.var_entries.deep_view(),
        }
    }
}

impl AppVarView {
    /// The comment holds exactly 42 bytes, every record is well formed,
    /// and the records together fit the 16-bit data-section length
    /// field.
    pub open spec fn wf(self) -> bool {
        &&& self.comment.len() == 42
        &&& forall|i: int| 0 <= i < self.var_entries.len() ==> self.var_entries[i].wf()
        &&& entries_wire_len(self.var_entries) <= 0xffff
    }
}

impl AppVar {
    /// Well-formedness of the container, stated on its view.
    pub open spec fn wf(self) -> bool {
        self@.wf()
    }
}

} // verus!
