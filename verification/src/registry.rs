use vstd::prelude::*;
use crate::error::Error;
use crate::index::{index_for, spec_index_for, Index};
use crate::table::{Cap, Caps, Method, MethodV, Table, TableV};
use crate::payload::{Function, Payload};
use crate::value::{Value, ValueV};

verus! {

/// The position of the first element of `s` satisfying `p`, if any.
pub open spec fn first_where<T>(s: Seq<T>, p: spec_fn(T) -> bool) -> Option<int>
    decreases s.len(),
{
    if s.len() == 0 {
        None
    } else if p(s[0]) {
        Some(0int)
    } else {
        match first_where(s.drop_first(), p) {
            Some(i) => Some(i + 1),
            None => None,
        }
    }
}

/// What [`first_where`] finds: the first match, behind no other match.
pub proof fn lemma_first_where<T>(s: Seq<T>, p: spec_fn(T) -> bool)
    ensures
        match first_where(s, p) {
            Some(i) => 0 <= i < s.len() && p(s[i]) && (forall|j: int| 0 <= j < i ==> !p(s[j])),
            None => forall|j: int| 0 <= j < s.len() ==> !p(s[j]),
        },
    decreases s.len(),
{
    if s.len() > 0 && !p(s[0]) {
        lemma_first_where(s.drop_first(), p);
        let d = s.drop_first();
        match first_where(d, p) {
            Some(i) => {
                assert(d[i] == s[i + 1]);
                assert forall|j: int| 0 <= j < i + 1 implies !p(s[j]) by {
                    if j > 0 {
                        assert(!p(d[j - 1]));
                        assert(d[j - 1] == s[j]);
                    }
                }
            },
            None => {
                assert forall|j: int| 0 <= j < s.len() implies !p(s[j]) by {
                    if j > 0 {
                        assert(!p(d[j - 1]));
                        assert(d[j - 1] == s[j]);
                    }
                }
            },
        }
    }
}

/// A position whose element matches, with no match before it, is what
/// [`first_where`] returns.
pub proof fn lemma_first_where_at<T>(s: Seq<T>, p: spec_fn(T) -> bool, i: int)
    requires
        0 <= i < s.len(),
        p(s[i]),
        forall|j: int| 0 <= j < i ==> !p(s[j]),
    ensures
        first_where(s, p) == Some(i),
    decreases i,
{
    if i > 0 {
        lemma_first_where_at(s.drop_first(), p, i - 1);
    }
}

/// Where nothing matches, [`first_where`] finds nothing.
pub proof fn lemma_first_where_none<T>(s: Seq<T>, p: spec_fn(T) -> bool)
    requires
        forall|j: int| 0 <= j < s.len() ==> !p(s[j]),
    ensures
        first_where(s, p) is None,
    decreases s.len(),
{
    if s.len() > 0 {
        lemma_first_where_none(s.drop_first(), p);
    }
}

/// Mapping a sequence after a push is pushing the mapped element.
pub proof fn lemma_map_values_push<A, B>(s: Seq<A>, f: spec_fn(A) -> B, x: A)
    ensures
        s.push(x).map_values(f) == s.map_values(f).push(f(x)),
{
    assert(s.push(x).map_values(f) =~= s.map_values(f).push(f(x)));
}

/// Mapping a sequence after an update is updating with the mapped element.
pub proof fn lemma_map_values_update<A, B>(s: Seq<A>, f: spec_fn(A) -> B, i: int, x: A)
    requires
        0 <= i < s.len(),
    ensures
        s.update(i, x).map_values(f) == s.map_values(f).update(i, f(x)),
{
    assert(s.update(i, x).map_values(f) =~= s.map_values(f).update(i, f(x)));
}

/// One binding of the flat global namespace: a name and the value it
/// resolves to.
pub struct Global {
    pub name: String,
    pub value: Value,
}

/// The mathematical shape of a [`Global`].
#[verifier::ext_equal]
pub ghost struct GlobalV {
    pub name: Seq<char>,
    pub value: ValueV,
}

impl View for Global {
    type V = GlobalV;

    open spec fn view(&self) -> GlobalV {
        GlobalV { name: self.name@, value: self.value@ }
    }
}

/// The explicit, owned registry: the per-type tables, the type keys they
/// were registered under, and the flat namespace of global values.
///
/// One table stands at each position; the index with code `k + 1` denotes
/// the table at position `k`, and the type key at position `k` is the type
/// it was created for. Tables are created by [`Registry::register`], never
/// removed, and their slots are installed exactly once.
///
/// Every mutation goes through `&mut`: exclusive borrows give registration
/// the insert-or-return-existing discipline it needs, so no two
/// registrations of one type can race, and a shared registry is read-only.
pub struct Registry {
    pub keys: Vec<u64>,
    pub tables: Vec<Table>,
    pub globals: Vec<Global>,
}

/// The mathematical shape of a [`Registry`].
#[verifier::ext_equal]
pub ghost struct RegistryV {
    pub keys: Seq<u64>,
    pub tables: Seq<TableV>,
    pub globals: Seq<GlobalV>,
}

impl View for Registry {
    type V = RegistryV;

    open spec fn view(&self) -> RegistryV {
        RegistryV {
            keys: self.keys@,
            tables: self.tables@.map_values(|t: Table| t@),
            globals: self.globals@.map_values(|g: Global| g@),
        }
    }
}

/// Whether `ind` denotes a table of `tables`: non-null, and in range.
pub open spec fn ind_ok(tables: Seq<TableV>, ind: Index) -> bool {
    !ind.spec_is_null() && ind.table_id() < tables.len()
}

impl RegistryV {
    /// Well-formedness: one key per table, no key registered twice, and no
    /// global name bound twice. Established by [`Registry::new`] and kept
    /// by every operation.
    pub open spec fn wf(self) -> bool {
        &&& self.keys.len() == self.tables.len()
        &&& forall|i: int, j: int|
            0 <= i < j < self.keys.len() ==> self.keys[i] != self.keys[j]
        &&& forall|i: int, j: int|
            0 <= i < j < self.globals.len() ==> self.globals[i].name != self.globals[j].name
    }

    /// Whether `ind` denotes a table of this registry.
    pub open spec fn valid(self, ind: Index) -> bool {
        ind_ok(self.tables, ind)
    }

    /// The table `ind` denotes.
    pub open spec fn table_at(self, ind: Index) -> TableV {
        self.tables[ind.table_id()]
    }

    /// The position of the table registered for `key`, if any.
    pub open spec fn key_slot(self, key: u64) -> Option<int> {
        first_where(self.keys, key_pred(key))
    }

    /// The position of the global binding for `name`, if any.
    pub open spec fn global_slot(self, name: Seq<char>) -> Option<int> {
        first_where(self.globals, global_pred(name))
    }
}

/// Matching a registered type key.
pub open spec fn key_pred(key: u64) -> spec_fn(u64) -> bool {
    |k: u64| k == key
}

/// Matching a global binding's name.
pub open spec fn global_pred(name: Seq<char>) -> spec_fn(GlobalV) -> bool {
    |g: GlobalV| g.name == name
}

/// A freshly created table: named, with no slots installed, no bases and
/// no methods.
pub open spec fn fresh_table(name: Seq<char>) -> TableV {
    TableV {
        name,
        installed: false,
        caps: Caps {
            copy: false,
            to_value: false,
            to_ref: false,
            assign_if: false,
            from_ref: false,
        },
        bases: Seq::empty(),
        methods: Seq::empty(),
    }
}

/// What registration does: for a key already registered, the registry is
/// unchanged and the existing index comes back; for a new key, one fresh
/// table is appended and its index comes back. Repeated registration of one
/// key therefore returns the same index and never creates a second table.
pub open spec fn spec_register(m: RegistryV, key: u64, name: Seq<char>) -> (RegistryV, Index) {
    match m.key_slot(key) {
        Some(i) => (m, spec_index_for(i)),
        None => (
            RegistryV {
                keys: m.keys.push(key),
                tables: m.tables.push(fresh_table(name)),
                globals: m.globals,
            },
            spec_index_for(m.tables.len() as int),
        ),
    }
}

/// What installing slots does: a `Corruption` for an index this registry
/// never issued, a `RegistrationConflict` for a table whose slots are
/// already installed — both leaving the registry unchanged — and otherwise
/// the one table updated with the given bundle, exactly once.
pub open spec fn spec_install(m: RegistryV, ind: Index, caps: Caps) -> (
    RegistryV,
    Result<(), Error>,
) {
    if !m.valid(ind) {
        (m, Err(Error::Corruption))
    } else if m.table_at(ind).installed {
        (m, Err(Error::RegistrationConflict))
    } else {
        (
            RegistryV {
                tables: m.tables.update(
                    ind.table_id(),
                    TableV { installed: true, caps, ..m.table_at(ind) },
                ),
                ..m
            },
            Ok(()),
        )
    }
}

/// What declaring a base does: a `Corruption` for an index this registry
/// never issued, otherwise the base appended to the derived table's bases,
/// after every base declared before it.
pub open spec fn spec_add_base(m: RegistryV, derived: Index, base: Index) -> (
    RegistryV,
    Result<(), Error>,
) {
    if !m.valid(derived) || !m.valid(base) {
        (m, Err(Error::Corruption))
    } else {
        (
            RegistryV {
                tables: m.tables.update(
                    derived.table_id(),
                    TableV {
                        bases: m.table_at(derived).bases.push(base),
                        ..m.table_at(derived)
                    },
                ),
                ..m
            },
            Ok(()),
        )
    }
}

/// What attaching a method does: a `Corruption` for an index this registry
/// never issued, otherwise the named callable appended to the table's
/// methods, after every method attached before it.
pub open spec fn spec_add_method(m: RegistryV, ind: Index, method: MethodV) -> (
    RegistryV,
    Result<(), Error>,
) {
    if !m.valid(ind) {
        (m, Err(Error::Corruption))
    } else {
        (
            RegistryV {
                tables: m.tables.update(
                    ind.table_id(),
                    TableV { methods: m.table_at(ind).methods.push(method), ..m.table_at(ind) },
                ),
                ..m
            },
            Ok(()),
        )
    }
}

/// What binding a global does: a bound name is rebound in place, an unbound
/// name is appended. The namespace is flat; each name has at most one
/// binding.
pub open spec fn spec_set_global(m: RegistryV, name: Seq<char>, v: ValueV) -> RegistryV {
    match m.global_slot(name) {
        Some(i) => RegistryV { globals: m.globals.update(i, GlobalV { name, value: v }), ..m },
        None => RegistryV { globals: m.globals.push(GlobalV { name, value: v }), ..m },
    }
}

/// What lookup returns: the value bound to the name, or `LookupFailed` for
/// a name that is not bound — never a null-but-successful handle.
pub open spec fn spec_lookup(m: RegistryV, name: Seq<char>) -> Result<ValueV, Error> {
    match m.global_slot(name) {
        Some(i) => Ok(m.globals[i].value),
        None => Err(Error::LookupFailed),
    }
}

/// Capability resolution from `ind`: the table itself when it provides the
/// slot, else the first provider among its bases, nearest declared base
/// first, depth first — the first match wins. `fuel` bounds the descent;
/// with fuel for every table, only a cyclic base declaration can exhaust
/// it, and such a walk resolves as absent.
pub open spec fn resolve_cap(tables: Seq<TableV>, ind: Index, cap: Cap, fuel: nat) -> Option<
    Index,
>
    decreases fuel, 0int,
{
    if !ind_ok(tables, ind) {
        None
    } else if tables[ind.table_id()].has_cap(cap) {
        Some(ind)
    } else if fuel == 0 {
        None
    } else {
        resolve_cap_list(tables, tables[ind.table_id()].bases, cap, (fuel - 1) as nat)
    }
}

/// Capability resolution along a base list, in declaration order.
pub open spec fn resolve_cap_list(tables: Seq<TableV>, bases: Seq<Index>, cap: Cap, fuel: nat) -> Option<
    Index,
>
    decreases fuel, bases.len() + 1,
{
    if bases.len() == 0 {
        None
    } else {
        match resolve_cap(tables, bases[0], cap, fuel) {
            Some(i) => Some(i),
            None => resolve_cap_list(tables, bases.drop_first(), cap, fuel),
        }
    }
}

/// The table whose slot serves a request for `cap` on `ind`, if any.
pub open spec fn spec_resolve(m: RegistryV, ind: Index, cap: Cap) -> Option<Index> {
    resolve_cap(m.tables, ind, cap, m.tables.len() as nat)
}

/// Whether a value of the type of `from` may stand where `to` is asked:
/// the same index, or `to` reachable from `from` through declared bases.
/// `fuel` bounds the walk as in [`resolve_cap`].
pub open spec fn reaches_base(tables: Seq<TableV>, from: Index, to: Index, fuel: nat) -> bool
    decreases fuel, 0int,
{
    if from == to {
        true
    } else if !ind_ok(tables, from) {
        false
    } else if fuel == 0 {
        false
    } else {
        reaches_list(tables, tables[from.table_id()].bases, to, (fuel - 1) as nat)
    }
}

/// Base reachability along a base list, in declaration order.
pub open spec fn reaches_list(tables: Seq<TableV>, bases: Seq<Index>, to: Index, fuel: nat) -> bool
    decreases fuel, bases.len() + 1,
{
    if bases.len() == 0 {
        false
    } else {
        reaches_base(tables, bases[0], to, fuel) || reaches_list(
            tables,
            bases.drop_first(),
            to,
            fuel,
        )
    }
}

/// Whether `from` is convertible to `to` in this registry.
pub open spec fn spec_convertible(m: RegistryV, from: Index, to: Index) -> bool {
    reaches_base(m.tables, from, to, m.tables.len() as nat)
}

impl Registry {
    /// The empty registry: no tables, no keys, no globals.
    pub fn new() -> (r: Registry)
        ensures
            r@ == (RegistryV { keys: Seq::empty(), tables: Seq::empty(), globals: Seq::empty() }),
            r@.wf(),
    {
        let r = Registry { keys: Vec::new(), tables: Vec::new(), globals: Vec::new() };
        proof {
            assert(r@ =~= RegistryV {
                keys: Seq::empty(),
                tables: Seq::empty(),
                globals: Seq::empty(),
            });
        }
        r
    }

    /// Registers the type identified by `key` under `name`, idempotently:
    /// the first call creates one fresh table, every later call for the
    /// same key returns the same index and changes nothing.
    pub fn register(&mut self, key: u64, name: &str) -> (r: Index)
        requires
            old(self)@.wf(),
            old(self)@.tables.len() < usize::MAX,
        ensures
            final(self)@.wf(),
            final(self)@ == spec_register(old(self)@, key, name@).0,
            r == spec_register(old(self)@, key, name@).1,
            !r.spec_is_null(),
    {
        let ghost pred = key_pred(key);
        let mut i: usize = 0;
        while i < self.keys.len()
            invariant
                i <= self.keys.len(),
                forall|j: int| 0 <= j < i ==> !pred(self.keys@[j]),
                *self == *old(self),
                old(self)@.wf(),
                pred == key_pred(key),
            decreases self.keys.len() - i,
        {
            if self.keys[i] == key {
                proof {
                    lemma_first_where_at(self@.keys, pred, i as int);
                }
                return index_for(i);
            }
            i = i + 1;
        }
        proof {
            lemma_first_where_none(self@.keys, pred);
        }
        let id = self.tables.len();
        let t = Table {
            name: name.to_owned(),
            installed: false,
            caps: Caps::none(),
            bases: Vec::new(),
            methods: Vec::new(),
        };
        proof {
            assert(t@ =~= fresh_table(name@));
            lemma_map_values_push(old(self).tables@, |tb: Table| tb@, t);
        }
        self.keys.push(key);
        self.tables.push(t);
        proof {
            assert(final(self)@ =~= spec_register(old(self)@, key, name@).0);
            assert forall|a: int, b: int|
                0 <= a < b < final(self)@.keys.len() implies final(self)@.keys[a]
                != final(self)@.keys[b] by {
                if b < old(self)@.keys.len() {
                } else {
                    assert(!pred(old(self)@.keys[a]));
                }
            }
        }
        index_for(id)
    }

    /// Registers the type identified by `key` with an empty name when it is
    /// new; the lazily-populating entry point for callers that carry only a
    /// type key.
    pub fn fetch(&mut self, key: u64) -> (r: Index)
        requires
            old(self)@.wf(),
            old(self)@.tables.len() < usize::MAX,
        ensures
            final(self)@.wf(),
            final(self)@ == spec_register(old(self)@, key, Seq::<char>::empty()).0,
            r == spec_register(old(self)@, key, Seq::<char>::empty()).1,
            !r.spec_is_null(),
    {
        proof {
            reveal_strlit("");
            assert(""@ =~= Seq::<char>::empty());
        }
        self.register(key, "")
    }

    /// Installs the operation-slot bundle on the table `ind` denotes,
    /// exactly once; a second install is a `RegistrationConflict` and
    /// changes nothing.
    pub fn install(&mut self, ind: Index, caps: Caps) -> (r: Result<(), Error>)
        requires
            old(self)@.wf(),
        ensures
            final(self)@.wf(),
            final(self)@ == spec_install(old(self)@, ind, caps).0,
            r == spec_install(old(self)@, ind, caps).1,
    {
        if ind.is_null() || ind.code - 1 >= self.tables.len() {
            return Err(Error::Corruption);
        }
        let id = ind.code - 1;
        if self.tables[id].installed {
            return Err(Error::RegistrationConflict);
        }
        proof {
            lemma_map_values_update(
                old(self).tables@,
                |tb: Table| tb@,
                id as int,
                Table { installed: true, caps, ..old(self).tables@[id as int] },
            );
        }
        let t = &mut self.tables[id];
        t.installed = true;
        t.caps = caps;
        proof {
            assert(final(self)@.tables =~= spec_install(old(self)@, ind, caps).0.tables);
            assert(final(self)@ =~= spec_install(old(self)@, ind, caps).0);
        }
        Ok(())
    }

    /// Declares that the type of `derived` is-a type of `base`: dispatch on
    /// `derived` may fall back to `base`'s slots. Bases accumulate in
    /// declaration order and are never removed.
    pub fn add_base(&mut self, derived: Index, base: Index) -> (r: Result<(), Error>)
        requires
            old(self)@.wf(),
        ensures
            final(self)@.wf(),
            final(self)@ == spec_add_base(old(self)@, derived, base).0,
            r == spec_add_base(old(self)@, derived, base).1,
    {
        if derived.is_null() || derived.code - 1 >= self.tables.len() || base.is_null()
            || base.code - 1 >= self.tables.len() {
            return Err(Error::Corruption);
        }
        let id = derived.code - 1;
        let ghost updated = TableV {
            bases: old(self)@.table_at(derived).bases.push(base),
            ..old(self)@.table_at(derived)
        };
        let t = &mut self.tables[id];
        t.bases.push(base);
        proof {
            assert(final(self).tables@[id as int]@ =~= updated);
            lemma_map_values_update(
                old(self).tables@,
                |tb: Table| tb@,
                id as int,
                final(self).tables@[id as int],
            );
            assert(old(self).tables@.update(id as int, final(self).tables@[id as int])
                =~= final(self).tables@);
            assert(final(self)@ =~= spec_add_base(old(self)@, derived, base).0);
        }
        Ok(())
    }

    /// Attaches a named callable to the table `ind` denotes. Methods
    /// accumulate in declaration order; overload resolution tries them in
    /// that order.
    pub fn add_method(&mut self, ind: Index, name: &str, func: Function) -> (r: Result<
        (),
        Error,
    >)
        requires
            old(self)@.wf(),
        ensures
            final(self)@.wf(),
            final(self)@ == spec_add_method(
                old(self)@,
                ind,
                MethodV { name: name@, func: func@ },
            ).0,
            r == spec_add_method(old(self)@, ind, MethodV { name: name@, func: func@ }).1,
    {
        if ind.is_null() || ind.code - 1 >= self.tables.len() {
            return Err(Error::Corruption);
        }
        let id = ind.code - 1;
        let ghost method = MethodV { name: name@, func: func@ };
        let ghost updated = TableV {
            methods: old(self)@.table_at(ind).methods.push(method),
            ..old(self)@.table_at(ind)
        };
        let m = Method { name: name.to_owned(), func };
        let t = &mut self.tables[id];
        t.methods.push(m);
        proof {
            lemma_map_values_push(
                old(self).tables@[id as int].methods@,
                |me: Method| me@,
                final(self).tables@[id as int].methods@[old(self).tables@[id as int].methods@.len() as int],
            );
            assert(final(self).tables@[id as int]@ =~= updated);
            lemma_map_values_update(
                old(self).tables@,
                |tb: Table| tb@,
                id as int,
                final(self).tables@[id as int],
            );
            assert(old(self).tables@.update(id as int, final(self).tables@[id as int])
                =~= final(self).tables@);
            assert(final(self)@ =~= spec_add_method(old(self)@, ind, method).0);
        }
        Ok(())
    }

    /// Binds `name` to `value` in the flat global namespace, replacing any
    /// earlier binding of the same name.
    pub fn set_global(&mut self, name: &str, value: Value)
        requires
            old(self)@.wf(),
        ensures
            final(self)@.wf(),
            final(self)@ == spec_set_global(old(self)@, name@, value@),
    {
        let ghost pred = global_pred(name@);
        let target: String = name.to_owned();
        let mut i: usize = 0;
        while i < self.globals.len()
            invariant
                i <= self.globals.len(),
                forall|j: int| 0 <= j < i ==> !pred(self@.globals[j]),
                *self == *old(self),
                old(self)@.wf(),
                pred == global_pred(name@),
                target@ == name@,
            decreases self.globals.len() - i,
        {
            if self.globals[i].name == target {
                proof {
                    lemma_first_where_at(self@.globals, pred, i as int);
                }
                let g = &mut self.globals[i];
                g.value = value;
                proof {
                    lemma_map_values_update(
                        old(self).globals@,
                        |gl: Global| gl@,
                        i as int,
                        final(self).globals@[i as int],
                    );
                    assert(final(self).globals@[i as int]@ =~= GlobalV {
                        name: name@,
                        value: value@,
                    });
                    assert(final(self)@ =~= spec_set_global(old(self)@, name@, value@));
                    assert forall|a: int, b: int|
                        0 <= a < b < final(self)@.globals.len() implies final(self)@.globals[a].name
                        != final(self)@.globals[b].name by {
                        assert(old(self)@.globals[a].name != old(self)@.globals[b].name);
                    }
                }
                return ;
            }
            i = i + 1;
        }
        proof {
            lemma_first_where_none(self@.globals, pred);
            lemma_map_values_push(
                old(self).globals@,
                |gl: Global| gl@,
                Global { name: target, value },
            );
        }
        self.globals.push(Global { name: target, value });
        proof {
            assert(final(self)@ =~= spec_set_global(old(self)@, name@, value@));
            assert forall|a: int, b: int|
                0 <= a < b < final(self)@.globals.len() implies final(self)@.globals[a].name
                != final(self)@.globals[b].name by {
                if b < old(self)@.globals.len() {
                } else {
                    assert(!pred(old(self)@.globals[a]));
                }
            }
        }
    }

    /// Resolves a global name to its value: `LookupFailed` for a name that
    /// is not bound — a recoverable error, never an abort and never a
    /// null-but-successful handle.
    pub fn lookup(&self, name: &str) -> (r: Result<&Value, Error>)
        ensures
            match r {
                Ok(v) => spec_lookup(self@, name@) == Ok::<ValueV, Error>(v@),
                Err(e) => spec_lookup(self@, name@) == Err::<ValueV, Error>(e),
            },
    {
        let ghost pred = global_pred(name@);
        let target: String = name.to_owned();
        let mut i: usize = 0;
        while i < self.globals.len()
            invariant
                i <= self.globals.len(),
                forall|j: int| 0 <= j < i ==> !pred(self@.globals[j]),
                pred == global_pred(name@),
                target@ == name@,
            decreases self.globals.len() - i,
        {
            if self.globals[i].name == target {
                proof {
                    lemma_first_where_at(self@.globals, pred, i as int);
                }
                return Ok(&self.globals[i].value);
            }
            i = i + 1;
        }
        proof {
            lemma_first_where_none(self@.globals, pred);
        }
        Err(Error::LookupFailed)
    }

    /// Builds an owned value of the type `ind` denotes from an instance.
    /// The index is validated here, at the boundary: an index this registry
    /// never issued is a `Corruption`.
    pub fn make_value(&self, ind: Index, data: Payload) -> (r: Result<Value, Error>)
        ensures
            match r {
                Ok(v) => self@.valid(ind) && v@ == (ValueV { data: Some(data@), ind }),
                Err(e) => !self@.valid(ind) && e == Error::Corruption,
            },
    {
        if ind.is_null() || ind.code - 1 >= self.tables.len() {
            return Err(Error::Corruption);
        }
        Ok(Value { data: Some(data), ind })
    }

    /// Decides [`spec_resolve`]: the table serving a request for `cap` on
    /// `ind`, walking declared bases depth first, nearest declared base
    /// first.
    pub fn find_capability(&self, ind: Index, cap: Cap) -> (r: Option<Index>)
        ensures
            r == spec_resolve(self@, ind, cap),
    {
        let fuel = self.tables.len();
        self.resolve_cap_exec(ind, cap, fuel)
    }

    /// One step of the capability walk, mirroring [`resolve_cap`].
    fn resolve_cap_exec(&self, ind: Index, cap: Cap, fuel: usize) -> (r: Option<Index>)
        ensures
            r == resolve_cap(self@.tables, ind, cap, fuel as nat),
        decreases fuel, 0int,
    {
        if ind.is_null() || ind.code - 1 >= self.tables.len() {
            return None;
        }
        let id = ind.code - 1;
        if self.tables[id].provides(cap) {
            return Some(ind);
        }
        if fuel == 0 {
            return None;
        }
        let r = self.resolve_list_exec(&self.tables[id].bases, 0, cap, fuel - 1);
        proof {
            assert(self@.tables[id as int] == self.tables@[id as int]@);
            assert(self.tables@[id as int].bases@.skip(0) =~= self@.tables[id as int].bases);
        }
        r
    }

    /// The capability walk along a base list, mirroring [`resolve_cap_list`].
    fn resolve_list_exec(&self, bases: &Vec<Index>, pos: usize, cap: Cap, fuel: usize) -> (r:
        Option<Index>)
        requires
            pos <= bases@.len(),
        ensures
            r == resolve_cap_list(self@.tables, bases@.skip(pos as int), cap, fuel as nat),
        decreases fuel, bases@.len() - pos + 1,
    {
        if pos == bases.len() {
            proof {
                assert(bases@.skip(pos as int) =~= Seq::<Index>::empty());
            }
            return None;
        }
        proof {
            assert(bases@.skip(pos as int)[0] == bases@[pos as int]);
        }
        match self.resolve_cap_exec(bases[pos], cap, fuel) {
            Some(found) => Some(found),
            None => {
                let r = self.resolve_list_exec(bases, pos + 1, cap, fuel);
                proof {
                    assert(bases@.skip(pos as int).drop_first() =~= bases@.skip(pos as int + 1));
                }
                r
            },
        }
    }

    /// Decides [`spec_convertible`]: whether a value of the type of `from`
    /// may stand where `to` is asked.
    pub fn convertible(&self, from: Index, to: Index) -> (r: bool)
        ensures
            r == spec_convertible(self@, from, to),
    {
        let fuel = self.tables.len();
        self.reaches_exec(from, to, fuel)
    }

    /// One step of the base walk, mirroring [`reaches_base`].
    fn reaches_exec(&self, from: Index, to: Index, fuel: usize) -> (r: bool)
        ensures
            r == reaches_base(self@.tables, from, to, fuel as nat),
        decreases fuel, 0int,
    {
        if from == to {
            return true;
        }
        if from.is_null() || from.code - 1 >= self.tables.len() {
            return false;
        }
        if fuel == 0 {
            return false;
        }
        let id = from.code - 1;
        let r = self.reaches_list_exec(&self.tables[id].bases, 0, to, fuel - 1);
        proof {
            assert(self@.tables[id as int] == self.tables@[id as int]@);
            assert(self.tables@[id as int].bases@.skip(0) =~= self@.tables[id as int].bases);
        }
        r
    }

    /// The base walk along a base list, mirroring [`reaches_list`].
    fn reaches_list_exec(&self, bases: &Vec<Index>, pos: usize, to: Index, fuel: usize) -> (r:
        bool)
        requires
            pos <= bases@.len(),
        ensures
            r == reaches_list(self@.tables, bases@.skip(pos as int), to, fuel as nat),
        decreases fuel, bases@.len() - pos + 1,
    {
        if pos == bases.len() {
            proof {
                assert(bases@.skip(pos as int) =~= Seq::<Index>::empty());
            }
            return false;
        }
        proof {
            assert(bases@.skip(pos as int)[0] == bases@[pos as int]);
        }
        if self.reaches_exec(bases[pos], to, fuel) {
            true
        } else {
            let r = self.reaches_list_exec(bases, pos + 1, to, fuel);
            proof {
                assert(bases@.skip(pos as int).drop_first() =~= bases@.skip(pos as int + 1));
            }
            r
        }
    }
}

impl Index {
    /// The human-readable name the type of this index was registered
    /// under. A pure function of the registry and the index: stable for as
    /// long as the registry lives, since tables are never removed or
    /// renamed.
    pub fn name<'a>(&self, reg: &'a Registry) -> (r: Result<&'a String, Error>)
        ensures
            match r {
                Ok(n) => reg@.valid(*self) && n@ == reg@.table_at(*self).name,
                Err(e) => !reg@.valid(*self) && e == Error::Corruption,
            },
    {
        if self.is_null() || self.code - 1 >= reg.tables.len() {
            return Err(Error::Corruption);
        }
        let id = self.code - 1;
        Ok(&reg.tables[id].name)
    }
}

/// Opens the bridge: the explicit lifecycle entry. The returned registry
/// owns all table storage and the global namespace; dropping it closes the
/// bridge.
pub fn initialize() -> (r: Registry)
    ensures
        r@ == (RegistryV { keys: Seq::empty(), tables: Seq::empty(), globals: Seq::empty() }),
        r@.wf(),
{
    Registry::new()
}

} // verus!
