use vstd::prelude::*;
use crate::error::Error;
use crate::index::Index;
use crate::registry::{
    ind_ok, key_pred, lemma_first_where, lemma_first_where_at, resolve_cap, spec_install,
    spec_register, RegistryV,
};
use crate::table::{Cap, Caps, TableV};
use crate::value::{spec_clone, spec_extract, ValueV};

verus! {

/// Law: a clone extracts as the original does. For any registered type with
/// a copy capability, extracting from the clone yields the same instance as
/// extracting from the original — the clone is value-equal, and its storage
/// is independent by ownership: the clone and the original each own their
/// own instance.
pub proof fn lemma_clone_extract_round_trip(
    tables: Seq<TableV>,
    v: ValueV,
    w: ValueV,
    expected: Index,
)
    requires
        spec_clone(tables, v) == Ok::<ValueV, Error>(w),
    ensures
        spec_extract(w, expected).0 == spec_extract(v, expected).0,
{
}

/// Law: registration is idempotent. Registering one type key twice returns
/// the same index, and the second registration leaves the registry exactly
/// as the first left it — never a second table for one type.
pub proof fn lemma_register_idempotent(
    m: RegistryV,
    key: u64,
    name1: Seq<char>,
    name2: Seq<char>,
)
    requires
        m.wf(),
    ensures
        spec_register(spec_register(m, key, name1).0, key, name2).1 == spec_register(
            m,
            key,
            name1,
        ).1,
        spec_register(spec_register(m, key, name1).0, key, name2).0 == spec_register(
            m,
            key,
            name1,
        ).0,
{
    let pred = key_pred(key);
    lemma_first_where(m.keys, pred);
    match m.key_slot(key) {
        Some(i) => {
        },
        None => {
            let m1 = spec_register(m, key, name1).0;
            assert(m1.keys == m.keys.push(key));
            assert(pred(m1.keys[m.keys.len() as int]));
            lemma_first_where_at(m1.keys, pred, m.keys.len() as int);
        },
    }
}

/// Law: registering one type never disturbs another. Every index valid
/// before a registration stays valid and keeps its table — its name, slots,
/// bases and methods — so a registered type's name is stable across later
/// registrations.
pub proof fn lemma_register_preserves_tables(
    m: RegistryV,
    key: u64,
    name: Seq<char>,
    ind: Index,
)
    requires
        m.valid(ind),
    ensures
        spec_register(m, key, name).0.valid(ind),
        spec_register(m, key, name).0.table_at(ind) == m.table_at(ind),
{
}

/// Law: installing slots on one table never disturbs another table's name.
/// Together with the previous law, the name an index was registered under
/// is stable for the life of the registry.
pub proof fn lemma_install_preserves_names(m: RegistryV, ind: Index, caps: Caps, other: Index)
    requires
        m.valid(other),
    ensures
        spec_install(m, ind, caps).0.valid(other),
        spec_install(m, ind, caps).0.table_at(other).name == m.table_at(other).name,
{
}

/// Law: base dispatch. A capability absent on a derived type's table but
/// present on its declared base's table is resolved to the base — dispatch
/// walks up the hierarchy and uses the base's slot.
pub proof fn lemma_base_capability(tables: Seq<TableV>, derived: Index, base: Index, cap: Cap)
    requires
        ind_ok(tables, derived),
        ind_ok(tables, base),
        !tables[derived.table_id()].has_cap(cap),
        tables[derived.table_id()].bases == seq![base],
        tables[base.table_id()].has_cap(cap),
    ensures
        resolve_cap(tables, derived, cap, tables.len() as nat) == Some(base),
{
    let fuel = tables.len() as nat;
    assert(fuel >= 1);
    assert(seq![base][0] == base);
    assert(resolve_cap(tables, base, cap, (fuel - 1) as nat) == Some(base));
}

/// Law: the nearest declared base wins. Where a capability is absent on the
/// derived table and two declared bases both provide it, the walk stops at
/// the base declared first — no diamond ambiguity, first match wins.
pub proof fn lemma_nearest_base_wins(
    tables: Seq<TableV>,
    derived: Index,
    first: Index,
    second: Index,
    cap: Cap,
)
    requires
        ind_ok(tables, derived),
        ind_ok(tables, first),
        !tables[derived.table_id()].has_cap(cap),
        tables[derived.table_id()].bases == seq![first, second],
        tables[first.table_id()].has_cap(cap),
    ensures
        resolve_cap(tables, derived, cap, tables.len() as nat) == Some(first),
{
    let fuel = tables.len() as nat;
    assert(fuel >= 1);
    assert(seq![first, second][0] == first);
    assert(resolve_cap(tables, first, cap, (fuel - 1) as nat) == Some(first));
}

} // verus!
