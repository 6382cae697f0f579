use vstd::prelude::*;
use crate::index::Index;
use crate::payload::{Function, FunctionV};

verus! {

/// One optional operation slot a table may provide. The destroy slot is not
/// listed: every registered type can be destroyed, by construction of
/// [`crate::value::Value`]'s ownership.
#[derive(Clone, Copy, PartialEq, Eq, Structural, Debug)]
pub enum Cap {
    /// Duplicate an owned instance.
    CopyInstance,
    /// Materialize an owned value from a reference.
    ToValue,
    /// Produce a non-owning, qualified view.
    ToRef,
    /// Assign into an existing instance from a reference.
    AssignIf,
    /// Construct a brand-new owned value from a reference and a scope.
    FromRef,
}

/// The bundle of optional slots handed to [`crate::registry::Registry::install`].
/// `false` means the capability is absent, not that it always fails.
#[derive(Clone, Copy, PartialEq, Eq, Structural, Debug)]
pub struct Caps {
    pub copy: bool,
    pub to_value: bool,
    pub to_ref: bool,
    pub assign_if: bool,
    pub from_ref: bool,
}

impl Caps {
    /// The empty bundle: no optional slot present.
    pub fn none() -> (r: Caps)
        ensures
            r == (Caps {
                copy: false,
                to_value: false,
                to_ref: false,
                assign_if: false,
                from_ref: false,
            }),
    {
        Caps { copy: false, to_value: false, to_ref: false, assign_if: false, from_ref: false }
    }
}

/// A named callable attached to a table.
pub struct Method {
    pub name: String,
    pub func: Function,
}

/// The mathematical shape of a [`Method`].
#[verifier::ext_equal]
pub ghost struct MethodV {
    pub name: Seq<char>,
    pub func: FunctionV,
}

impl View for Method {
    type V = MethodV;

    open spec fn view(&self) -> MethodV {
        MethodV { name: self.name@, func: self.func@ }
    }
}

/// The per-type dispatch table: the type's name, whether its operation
/// slots have been installed and which are present, its declared bases in
/// declaration order, and its named methods in declaration order.
///
/// A table is created by registration with no slots installed; `install`
/// fills the slots exactly once; bases and methods may be added afterwards
/// but never removed.
pub struct Table {
    pub name: String,
    pub installed: bool,
    pub caps: Caps,
    pub bases: Vec<Index>,
    pub methods: Vec<Method>,
}

/// The mathematical shape of a [`Table`].
#[verifier::ext_equal]
pub ghost struct TableV {
    pub name: Seq<char>,
    pub installed: bool,
    pub caps: Caps,
    pub bases: Seq<Index>,
    pub methods: Seq<MethodV>,
}

impl View for Table {
    type V = TableV;

    open spec fn view(&self) -> TableV {
        TableV {
            name: self.name@,
            installed: self.installed,
            caps: self.caps,
            bases: self.bases@,
            methods: self.methods@.map_values(|m: Method| m@),
        }
    }
}

impl TableV {
    /// Whether this table itself provides the slot: the slots must have
    /// been installed and the bundle must hold the capability.
    pub open spec fn has_cap(self, cap: Cap) -> bool {
        self.installed && match cap {
            Cap::CopyInstance => self.caps.copy,
            Cap::ToValue => self.caps.to_value,
            Cap::ToRef => self.caps.to_ref,
            Cap::AssignIf => self.caps.assign_if,
            Cap::FromRef => self.caps.from_ref,
        }
    }
}

impl Table {
    /// Decides [`TableV::has_cap`] for this table alone, without walking
    /// bases.
    pub fn provides(&self, cap: Cap) -> (r: bool)
        ensures
            r == self@.has_cap(cap),
    {
        self.installed && match cap {
            Cap::CopyInstance => self.caps.copy,
            Cap::ToValue => self.caps.to_value,
            Cap::ToRef => self.caps.to_ref,
            Cap::AssignIf => self.caps.assign_if,
            Cap::FromRef => self.caps.from_ref,
        }
    }
}

} // verus!
