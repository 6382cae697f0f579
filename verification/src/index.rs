use vstd::prelude::*;

verus! {

/// An opaque, copyable identity token for a registered type.
///
/// Two indexes compare equal exactly when they denote the same registered
/// type of one registry. The null index (`Index::new()`) denotes no type;
/// it is the index of an empty [`crate::value::Value`]. A non-null index
/// carries the position of its table inside the registry that issued it,
/// shifted by one so that zero stays the null encoding.
#[derive(Clone, Copy, PartialEq, Eq, Structural, Debug)]
pub struct Index {
    pub code: usize,
}

impl Index {
    /// Whether this is the null index, which denotes no registered type.
    pub open spec fn spec_is_null(self) -> bool {
        self.code == 0
    }

    /// The position of this index's table in the issuing registry;
    /// meaningful only for a non-null index.
    pub open spec fn table_id(self) -> int {
        self.code - 1
    }

    /// The null index. Matches the construction of an empty value: no
    /// address, no type.
    pub fn new() -> (r: Index)
        ensures
            r.spec_is_null(),
    {
        Index { code: 0 }
    }

    /// Decides [`Index::spec_is_null`].
    pub fn is_null(&self) -> (r: bool)
        ensures
            r == self.spec_is_null(),
    {
        self.code == 0
    }
}

/// The index of the table at position `id`.
pub open spec fn spec_index_for(id: int) -> Index {
    Index { code: (id + 1) as usize }
}

/// Builds the index of the table at position `id`.
pub fn index_for(id: usize) -> (r: Index)
    requires
        id < usize::MAX,
    ensures
        r == spec_index_for(id as int),
        !r.spec_is_null(),
        r.table_id() == id,
{
    Index { code: id + 1 }
}

} // verus!
