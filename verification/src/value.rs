use vstd::prelude::*;
use crate::error::Error;
use crate::index::Index;
use crate::payload::{Function, FunctionV, Op, Param, Payload, PayloadV};
use crate::qualifier::{accepts, spec_accepts, Qualifier};
use crate::registry::{
    first_where, ind_ok, lemma_first_where_at, lemma_first_where_none, reaches_base, resolve_cap,
    spec_lookup, Registry, RegistryV,
};
use crate::table::{Cap, MethodV, TableV};

verus! {

/// An owning, type-erased container: one instance of the type its index
/// denotes, or empty (no instance, null index).
///
/// Ownership is by construction: the instance lives inside the value, a
/// move invalidates the source, and dropping the value releases the
/// instance exactly once. No operation of the bridge can double-free or
/// leak an instance.
#[derive(Debug)]
pub struct Value {
    pub data: Option<Payload>,
    pub ind: Index,
}

/// The mathematical shape of a [`Value`].
#[verifier::ext_equal]
pub ghost struct ValueV {
    pub data: Option<PayloadV>,
    pub ind: Index,
}

impl View for Value {
    type V = ValueV;

    open spec fn view(&self) -> ValueV {
        ValueV {
            data: match self.data {
                Some(p) => Some(p@),
                None => None,
            },
            ind: self.ind,
        }
    }
}

/// The empty value: no instance, null index.
pub open spec fn spec_empty_value() -> ValueV {
    ValueV { data: None, ind: Index { code: 0 } }
}

/// What [`Value::extract`] returns and leaves behind: the instance and an
/// empty value on an exact index match, a `TypeMismatch` and the value
/// unchanged otherwise. Extraction from an empty value is always a
/// mismatch: a null index denotes no registered type.
pub open spec fn spec_extract(v: ValueV, expected: Index) -> (Result<PayloadV, Error>, ValueV) {
    match v.data {
        Some(p) => if v.ind == expected {
            (Ok(p), spec_empty_value())
        } else {
            (Err(Error::TypeMismatch), v)
        },
        None => (Err(Error::TypeMismatch), v),
    }
}

/// The view of an extraction result.
pub open spec fn extract_result_view(r: Result<Payload, Error>) -> Result<PayloadV, Error> {
    match r {
        Ok(p) => Ok(p@),
        Err(e) => Err(e),
    }
}

impl Value {
    /// The empty value. Always succeeds; it owns nothing and denotes no
    /// type.
    pub fn new() -> (r: Value)
        ensures
            r@ == spec_empty_value(),
    {
        Value { data: None, ind: Index::new() }
    }

    /// The index of the type this value owns an instance of; the null
    /// index when the value is empty.
    pub fn index(&self) -> (r: Index)
        ensures
            r == self.ind,
    {
        self.ind
    }

    /// Whether this value's index is exactly `ind`. A constant-time
    /// identity comparison; base relationships do not count here.
    pub fn holds(&self, ind: Index) -> (r: bool)
        ensures
            r == (self.ind == ind),
    {
        self.ind == ind
    }

    /// Takes the owned instance out, if this value's index is exactly
    /// `expected`; the value is left empty, so the instance is released
    /// exactly once, by its new owner.
    ///
    /// On a mismatch the value stays intact: a failed extraction consumes
    /// nothing.
    pub fn extract(&mut self, expected: Index) -> (r: Result<Payload, Error>)
        ensures
            extract_result_view(r) == spec_extract(old(self)@, expected).0,
            final(self)@ == spec_extract(old(self)@, expected).1,
    {
        if self.data.is_some() && self.ind == expected {
            let p = self.data.take().unwrap();
            self.ind = Index::new();
            proof {
                assert(final(self)@ =~= spec_empty_value());
            }
            Ok(p)
        } else {
            Err(Error::TypeMismatch)
        }
    }
}

/// A non-owning, qualified view of an instance: what crosses the boundary
/// as an argument. It is described by the instance it denotes, the index of
/// that instance's type, and the qualifier that governs what a callee may
/// do with it. Dropping a reference never releases anything.
#[derive(Debug)]
pub struct Ref {
    pub data: Option<Payload>,
    pub ind: Index,
    pub qual: Qualifier,
}

/// The mathematical shape of a [`Ref`].
#[verifier::ext_equal]
pub ghost struct RefV {
    pub data: Option<PayloadV>,
    pub ind: Index,
    pub qual: Qualifier,
}

impl View for Ref {
    type V = RefV;

    open spec fn view(&self) -> RefV {
        RefV {
            data: match self.data {
                Some(p) => Some(p@),
                None => None,
            },
            ind: self.ind,
            qual: self.qual,
        }
    }
}

impl Ref {
    /// The null reference: denotes nothing, with the `Const` qualifier.
    pub fn new() -> (r: Ref)
        ensures
            r@ == (RefV { data: None, ind: Index { code: 0 }, qual: Qualifier::Const }),
    {
        Ref { data: None, ind: Index::new(), qual: Qualifier::Const }
    }

    /// The index of the type of the instance this reference denotes.
    pub fn index(&self) -> (r: Index)
        ensures
            r == self.ind,
    {
        self.ind
    }

    /// Whether this reference denotes an instance at all.
    pub fn has_value(&self) -> (r: bool)
        ensures
            r == (self@.data is Some),
    {
        self.data.is_some()
    }

    /// The qualifier this reference was built with.
    pub fn qualifier(&self) -> (r: Qualifier)
        ensures
            r == self.qual,
    {
        self.qual
    }
}

/// The views of a marshaled argument array.
pub open spec fn refs_view(args: Seq<Ref>) -> Seq<RefV> {
    args.map_values(|a: Ref| a@)
}

/// The view of a value-returning result.
pub open spec fn value_result_view(r: Result<Value, Error>) -> Result<ValueV, Error> {
    match r {
        Ok(v) => Ok(v@),
        Err(e) => Err(e),
    }
}

/// The view of a reference-returning result.
pub open spec fn ref_result_view(r: Result<Ref, Error>) -> Result<RefV, Error> {
    match r {
        Ok(a) => Ok(a@),
        Err(e) => Err(e),
    }
}

/// Whether one marshaled argument satisfies one parameter slot: it denotes
/// an instance, its index is convertible to the slot's index, and its
/// qualifier satisfies the slot's qualifier class.
pub open spec fn arg_ok(tables: Seq<TableV>, p: Param, a: RefV) -> bool {
    &&& a.data is Some
    &&& reaches_base(tables, a.ind, p.ind, tables.len() as nat)
    &&& spec_accepts(p.qual, a.qual)
}

/// Whether an argument array satisfies a parameter list: same arity, every
/// argument against its slot.
pub open spec fn sig_matches(tables: Seq<TableV>, params: Seq<Param>, args: Seq<RefV>) -> bool {
    &&& params.len() == args.len()
    &&& forall|i: int| 0 <= i < params.len() ==> arg_ok(tables, params[i], args[i])
}

/// The sum of the first `k` arguments' integers, added left to right; no
/// result where an argument holds no integer or a partial sum leaves the
/// `i64` range.
pub open spec fn sum_to(args: Seq<RefV>, k: int) -> Option<int>
    decreases k,
{
    if k <= 0 {
        Some(0int)
    } else {
        match sum_to(args, k - 1) {
            None => None,
            Some(s) => match args[k - 1].data {
                Some(PayloadV::Int(n)) => if i64::MIN <= s + n <= i64::MAX {
                    Some(s + n)
                } else {
                    None
                },
                _ => None,
            },
        }
    }
}

/// Once the running sum has no result, no longer prefix has one.
pub proof fn lemma_sum_none(args: Seq<RefV>, k: int, k2: int)
    requires
        0 <= k <= k2,
        sum_to(args, k) is None,
    ensures
        sum_to(args, k2) is None,
    decreases k2 - k,
{
    if k2 > k {
        lemma_sum_none(args, k + 1, k2);
    }
}

/// What a callable's operation produces from the marshaled arguments, if
/// anything.
pub open spec fn spec_eval(op: Op, args: Seq<RefV>) -> Option<PayloadV> {
    match op {
        Op::Constant(c) => Some(PayloadV::Int(c)),
        Op::Sum => match sum_to(args, args.len() as int) {
            Some(s) => Some(PayloadV::Int(s as i64)),
            None => None,
        },
        Op::Arg(i) => if i < args.len() {
            args[i as int].data
        } else {
            None
        },
    }
}

/// What calling a callable does: a `CallFailed` when the arguments do not
/// satisfy the parameter slots or the operation produces nothing, a
/// `Corruption` when the declared result index was never issued, and
/// otherwise an owned value of the declared result type.
pub open spec fn spec_call_fn(tables: Seq<TableV>, f: FunctionV, args: Seq<RefV>) -> Result<
    ValueV,
    Error,
> {
    if !sig_matches(tables, f.params, args) {
        Err(Error::CallFailed)
    } else {
        match spec_eval(f.op, args) {
            None => Err(Error::CallFailed),
            Some(p) => if !ind_ok(tables, f.result) {
                Err(Error::Corruption)
            } else {
                Ok(ValueV { data: Some(p), ind: f.result })
            },
        }
    }
}

/// What calling a value does: dispatch to the callable it owns, or a
/// `CallFailed` when it owns none.
pub open spec fn spec_call(tables: Seq<TableV>, callee: ValueV, args: Seq<RefV>) -> Result<
    ValueV,
    Error,
> {
    match callee.data {
        Some(PayloadV::Func(f)) => spec_call_fn(tables, f, args),
        _ => Err(Error::CallFailed),
    }
}

/// Decides [`sig_matches`].
pub fn args_match(reg: &Registry, params: &Vec<Param>, args: &Vec<Ref>) -> (r: bool)
    ensures
        r == sig_matches(reg@.tables, params@, refs_view(args@)),
{
    if params.len() != args.len() {
        return false;
    }
    let mut i: usize = 0;
    while i < params.len()
        invariant
            i <= params@.len(),
            params@.len() == args@.len(),
            forall|j: int| 0 <= j < i ==> arg_ok(reg@.tables, params@[j], refs_view(args@)[j]),
        decreases params@.len() - i,
    {
        proof {
            assert(refs_view(args@)[i as int] == args@[i as int]@);
        }
        let p = params[i];
        let a = &args[i];
        if !(a.data.is_some() && reg.convertible(a.ind, p.ind) && accepts(p.qual, a.qual)) {
            return false;
        }
        i = i + 1;
    }
    true
}

/// Adds the integer arguments left to right with overflow checked, as
/// [`sum_to`] over the whole array states.
fn sum_args(args: &Vec<Ref>) -> (r: Option<i64>)
    ensures
        match r {
            Some(v) => sum_to(refs_view(args@), args@.len() as int) == Some(v as int),
            None => sum_to(refs_view(args@), args@.len() as int) is None,
        },
{
    let ghost view = refs_view(args@);
    let mut acc: i64 = 0;
    let mut i: usize = 0;
    while i < args.len()
        invariant
            i <= args@.len(),
            view == refs_view(args@),
            sum_to(view, i as int) == Some(acc as int),
        decreases args@.len() - i,
    {
        proof {
            assert(view[i as int] == args@[i as int]@);
        }
        match &args[i].data {
            Some(Payload::Int(n)) => {
                match acc.checked_add(*n) {
                    Some(s) => {
                        acc = s;
                    },
                    None => {
                        proof {
                            lemma_sum_none(view, i as int + 1, view.len() as int);
                        }
                        return None;
                    },
                }
            },
            _ => {
                proof {
                    lemma_sum_none(view, i as int + 1, view.len() as int);
                }
                return None;
            },
        }
        i = i + 1;
    }
    Some(acc)
}

impl Function {
    /// Calls this callable on a marshaled argument array, checking arity,
    /// argument indexes and qualifiers against the parameter slots, and
    /// hands back an owned value of the declared result type.
    pub fn call(&self, reg: &Registry, args: &Vec<Ref>) -> (r: Result<Value, Error>)
        ensures
            value_result_view(r) == spec_call_fn(reg@.tables, self@, refs_view(args@)),
    {
        if !args_match(reg, &self.params, args) {
            return Err(Error::CallFailed);
        }
        let produced: Payload = match self.op {
            Op::Constant(c) => Payload::Int(c),
            Op::Sum => {
                match sum_args(args) {
                    Some(v) => Payload::Int(v),
                    None => {
                        return Err(Error::CallFailed);
                    },
                }
            },
            Op::Arg(pos) => {
                if pos >= args.len() {
                    return Err(Error::CallFailed);
                }
                proof {
                    assert(refs_view(args@)[pos as int] == args@[pos as int]@);
                }
                match &args[pos].data {
                    Some(p) => p.duplicate(),
                    None => {
                        return Err(Error::CallFailed);
                    },
                }
            },
        };
        if self.result.is_null() || self.result.code - 1 >= reg.tables.len() {
            return Err(Error::Corruption);
        }
        Ok(Value { data: Some(produced), ind: self.result })
    }
}

impl Value {
    /// An independent copy of this value, through the copy slot its type's
    /// table — or the nearest base table — provides. `NotCopyable` when no
    /// table in the walk provides one: never an empty-but-successful value.
    /// An empty value copies to an empty value.
    pub fn try_clone(&self, reg: &Registry) -> (r: Result<Value, Error>)
        ensures
            value_result_view(r) == spec_clone(reg@.tables, self@),
    {
        match &self.data {
            None => Ok(Value::new()),
            Some(p) => {
                if self.ind.is_null() || self.ind.code - 1 >= reg.tables.len() {
                    return Err(Error::Corruption);
                }
                match reg.find_capability(self.ind, Cap::CopyInstance) {
                    None => Err(Error::NotCopyable),
                    Some(_) => Ok(Value { data: Some(p.duplicate()), ind: self.ind }),
                }
            },
        }
    }

    /// Calls the value itself as a callable, returning an owned result.
    pub fn call(&self, reg: &Registry, args: &Vec<Ref>) -> (r: Result<Value, Error>)
        ensures
            value_result_view(r) == spec_call(reg@.tables, self@, refs_view(args@)),
    {
        match &self.data {
            Some(Payload::Func(f)) => f.call(reg, args),
            _ => Err(Error::CallFailed),
        }
    }

    /// Calls the value itself as a callable and hands the result back as a
    /// view rather than an owned value. The view is described by the result;
    /// that the state it stands for outlives its use is the caller's
    /// obligation, not enforced here.
    pub fn call_ref(&self, reg: &Registry, args: &Vec<Ref>) -> (r: Result<Ref, Error>)
        ensures
            ref_result_view(r) == spec_call_ref(reg@.tables, self@, refs_view(args@)),
    {
        match self.call(reg, args) {
            Ok(v) => Ok(Ref { data: v.data, ind: v.ind, qual: Qualifier::Lvalue }),
            Err(e) => Err(e),
        }
    }
}

/// What cloning does: an empty value clones to an empty value; otherwise
/// the copy slot is resolved through the base walk, its absence is a
/// `NotCopyable`, and its presence yields a value equal to the source with
/// independent storage.
pub open spec fn spec_clone(tables: Seq<TableV>, v: ValueV) -> Result<ValueV, Error> {
    match v.data {
        None => Ok(spec_empty_value()),
        Some(p) => if !ind_ok(tables, v.ind) {
            Err(Error::Corruption)
        } else if resolve_cap(tables, v.ind, Cap::CopyInstance, tables.len() as nat) is None {
            Err(Error::NotCopyable)
        } else {
            Ok(v)
        },
    }
}

/// What calling through a view returns: the owned result of the call,
/// re-described as an lvalue view.
pub open spec fn spec_call_ref(tables: Seq<TableV>, callee: ValueV, args: Seq<RefV>) -> Result<
    RefV,
    Error,
> {
    match spec_call(tables, callee, args) {
        Ok(v) => Ok(RefV { data: v.data, ind: v.ind, qual: Qualifier::Lvalue }),
        Err(e) => Err(e),
    }
}

/// Matching one method during overload resolution: the name, then the
/// argument indexes and qualifiers against the parameter slots.
pub open spec fn method_pred(tables: Seq<TableV>, name: Seq<char>, args: Seq<RefV>) -> spec_fn(
    MethodV,
) -> bool {
    |me: MethodV| me.name == name && sig_matches(tables, me.func.params, args)
}

/// The first method of one table that matches the name and the arguments,
/// in declaration order.
pub open spec fn method_in_table(
    tables: Seq<TableV>,
    t: TableV,
    name: Seq<char>,
    args: Seq<RefV>,
) -> Option<FunctionV> {
    match first_where(t.methods, method_pred(tables, name, args)) {
        Some(i) => Some(t.methods[i].func),
        None => None,
    }
}

/// Method resolution from `ind`: the receiving table's own matching method
/// first, else the first match among its bases, nearest declared base
/// first, depth first. `fuel` bounds the walk as in
/// [`crate::registry::resolve_cap`].
pub open spec fn resolve_method(
    tables: Seq<TableV>,
    ind: Index,
    name: Seq<char>,
    args: Seq<RefV>,
    fuel: nat,
) -> Option<FunctionV>
    decreases fuel, 0int,
{
    if !ind_ok(tables, ind) {
        None
    } else {
        match method_in_table(tables, tables[ind.table_id()], name, args) {
            Some(f) => Some(f),
            None => if fuel == 0 {
                None
            } else {
                resolve_method_list(
                    tables,
                    tables[ind.table_id()].bases,
                    name,
                    args,
                    (fuel - 1) as nat,
                )
            },
        }
    }
}

/// Method resolution along a base list, in declaration order.
pub open spec fn resolve_method_list(
    tables: Seq<TableV>,
    bases: Seq<Index>,
    name: Seq<char>,
    args: Seq<RefV>,
    fuel: nat,
) -> Option<FunctionV>
    decreases fuel, bases.len() + 1,
{
    if bases.len() == 0 {
        None
    } else {
        match resolve_method(tables, bases[0], name, args, fuel) {
            Some(f) => Some(f),
            None => resolve_method_list(tables, bases.drop_first(), name, args, fuel),
        }
    }
}

/// What a method call does: the receiver is marshaled as a `Const` view in
/// front of the arguments, the method is resolved by name and signature
/// through the base walk, and the match is called. No match, like every
/// other dispatch rejection, is a `CallFailed`, never a crash.
pub open spec fn spec_method(
    tables: Seq<TableV>,
    receiver: ValueV,
    name: Seq<char>,
    args: Seq<RefV>,
) -> Result<ValueV, Error> {
    if receiver.data is None {
        Err(Error::CallFailed)
    } else if !ind_ok(tables, receiver.ind) {
        Err(Error::Corruption)
    } else {
        let full = seq![
            RefV { data: receiver.data, ind: receiver.ind, qual: Qualifier::Const },
        ] + args;
        match resolve_method(tables, receiver.ind, name, full, tables.len() as nat) {
            None => Err(Error::CallFailed),
            Some(f) => spec_call_fn(tables, f, full),
        }
    }
}

/// One step of the method walk, mirroring [`resolve_method`].
fn find_method<'a>(
    reg: &'a Registry,
    ind: Index,
    name: &String,
    args: &Vec<Ref>,
    fuel: usize,
) -> (r: Option<&'a Function>)
    ensures
        match r {
            Some(f) => resolve_method(reg@.tables, ind, name@, refs_view(args@), fuel as nat)
                == Some(f@),
            None => resolve_method(reg@.tables, ind, name@, refs_view(args@), fuel as nat)
                is None,
        },
    decreases fuel, 0int,
{
    if ind.is_null() || ind.code - 1 >= reg.tables.len() {
        return None;
    }
    let id = ind.code - 1;
    proof {
        assert(reg@.tables[id as int] == reg.tables@[id as int]@);
    }
    let t = &reg.tables[id];
    let ghost pred = method_pred(reg@.tables, name@, refs_view(args@));
    let mut k: usize = 0;
    while k < t.methods.len()
        invariant
            k <= t.methods@.len(),
            id < reg.tables@.len(),
            id < reg@.tables.len(),
            !ind.spec_is_null(),
            id == ind.table_id(),
            *t == reg.tables@[id as int],
            t@ == reg@.tables[id as int],
            pred == method_pred(reg@.tables, name@, refs_view(args@)),
            forall|j: int| 0 <= j < k ==> !pred(t@.methods[j]),
        decreases t.methods@.len() - k,
    {
        proof {
            assert(t@.methods[k as int] == t.methods@[k as int]@);
        }
        if t.methods[k].name == *name && args_match(reg, &t.methods[k].func.params, args) {
            proof {
                assert(pred(t@.methods[k as int]));
                lemma_first_where_at(t@.methods, pred, k as int);
            }
            return Some(&t.methods[k].func);
        }
        k = k + 1;
    }
    proof {
        lemma_first_where_none(t@.methods, pred);
    }
    if fuel == 0 {
        return None;
    }
    let r = find_method_list(reg, &t.bases, 0, name, args, fuel - 1);
    proof {
        assert(t.bases@.skip(0) =~= t@.bases);
    }
    r
}

/// The method walk along a base list, mirroring [`resolve_method_list`].
fn find_method_list<'a>(
    reg: &'a Registry,
    bases: &Vec<Index>,
    pos: usize,
    name: &String,
    args: &Vec<Ref>,
    fuel: usize,
) -> (r: Option<&'a Function>)
    requires
        pos <= bases@.len(),
    ensures
        match r {
            Some(f) => resolve_method_list(
                reg@.tables,
                bases@.skip(pos as int),
                name@,
                refs_view(args@),
                fuel as nat,
            ) == Some(f@),
            None => resolve_method_list(
                reg@.tables,
                bases@.skip(pos as int),
                name@,
                refs_view(args@),
                fuel as nat,
            ) is None,
        },
    decreases fuel, bases@.len() - pos + 1,
{
    if pos == bases.len() {
        proof {
            assert(bases@.skip(pos as int) =~= Seq::<Index>::empty());
        }
        return None;
    }
    proof {
        assert(bases@.skip(pos as int)[0] == bases@[pos as int]);
    }
    match find_method(reg, bases[pos], name, args, fuel) {
        Some(f) => Some(f),
        None => {
            let r = find_method_list(reg, bases, pos + 1, name, args, fuel);
            proof {
                assert(bases@.skip(pos as int).drop_first() =~= bases@.skip(pos as int + 1));
            }
            r
        },
    }
}

impl Value {
    /// Marshals the receiver as a `Const` view in front of `args`, resolves
    /// the method by name and signature through the base walk, and calls
    /// the match.
    pub fn method(&self, reg: &Registry, name: &str, args: &Vec<Ref>) -> (r: Result<Value, Error>)
        ensures
            value_result_view(r) == spec_method(reg@.tables, self@, name@, refs_view(args@)),
    {
        let receiver: Ref = match &self.data {
            Some(p) => Ref { data: Some(p.duplicate()), ind: self.ind, qual: Qualifier::Const },
            None => {
                return Err(Error::CallFailed);
            },
        };
        if self.ind.is_null() || self.ind.code - 1 >= reg.tables.len() {
            return Err(Error::Corruption);
        }
        let ghost full_view = seq![
            RefV { data: self@.data, ind: self.ind, qual: Qualifier::Const },
        ] + refs_view(args@);
        let mut full: Vec<Ref> = Vec::new();
        full.push(receiver);
        proof {
            assert(refs_view(full@) =~= full_view.subrange(0, 1));
        }
        let mut i: usize = 0;
        while i < args.len()
            invariant
                i <= args@.len(),
                full_view == seq![
                    RefV { data: self@.data, ind: self.ind, qual: Qualifier::Const },
                ] + refs_view(args@),
                full_view.len() == args@.len() + 1,
                refs_view(full@) == full_view.subrange(0, i + 1),
            decreases args@.len() - i,
        {
            let a = &args[i];
            let copied = Ref {
                data: match &a.data {
                    Some(p) => Some(p.duplicate()),
                    None => None,
                },
                ind: a.ind,
                qual: a.qual,
            };
            proof {
                assert(refs_view(args@)[i as int] == args@[i as int]@);
                assert(copied@ =~= args@[i as int]@);
                crate::registry::lemma_map_values_push(full@, |x: Ref| x@, copied);
            }
            full.push(copied);
            proof {
                assert(refs_view(full@) =~= full_view.subrange(0, i + 2));
            }
            i = i + 1;
        }
        proof {
            assert(refs_view(full@) =~= full_view);
        }
        let name_s: String = name.to_owned();
        let fuel = reg.tables.len();
        match find_method(reg, self.ind, &name_s, &full, fuel) {
            None => Err(Error::CallFailed),
            Some(f) => f.call(reg, &full),
        }
    }
}

/// What producing a view does: only a value that owns an instance of a
/// registered type whose walk provides the to-ref slot yields one, with the
/// requested qualifier.
pub open spec fn spec_to_ref(tables: Seq<TableV>, v: ValueV, qual: Qualifier) -> Result<
    RefV,
    Error,
> {
    if v.data is None {
        Err(Error::CallFailed)
    } else if !ind_ok(tables, v.ind) {
        Err(Error::Corruption)
    } else if resolve_cap(tables, v.ind, Cap::ToRef, tables.len() as nat) is None {
        Err(Error::CallFailed)
    } else {
        Ok(RefV { data: v.data, ind: v.ind, qual })
    }
}

/// What materializing a view does: only a view of an instance of a
/// registered type whose walk provides the to-value slot yields an owned
/// value, equal to the instance the view denotes.
pub open spec fn spec_to_value(tables: Seq<TableV>, a: RefV) -> Result<ValueV, Error> {
    if a.data is None {
        Err(Error::CallFailed)
    } else if !ind_ok(tables, a.ind) {
        Err(Error::Corruption)
    } else if resolve_cap(tables, a.ind, Cap::ToValue, tables.len() as nat) is None {
        Err(Error::CallFailed)
    } else {
        Ok(ValueV { data: a.data, ind: a.ind })
    }
}

/// What conditional assignment does: into an existing instance only,
/// through the assign-if slot of the target's walk, and only from a view
/// whose index matches the target's or is convertible to it — a mismatch is
/// a `TypeMismatch` and leaves the target intact.
pub open spec fn spec_assign_if(tables: Seq<TableV>, target: ValueV, a: RefV) -> (
    ValueV,
    Result<(), Error>,
) {
    if target.data is None {
        (target, Err(Error::CallFailed))
    } else if !ind_ok(tables, target.ind) {
        (target, Err(Error::Corruption))
    } else if resolve_cap(tables, target.ind, Cap::AssignIf, tables.len() as nat) is None {
        (target, Err(Error::CallFailed))
    } else if a.data is None {
        (target, Err(Error::CallFailed))
    } else if !reaches_base(tables, a.ind, target.ind, tables.len() as nat) {
        (target, Err(Error::TypeMismatch))
    } else {
        (ValueV { data: a.data, ind: target.ind }, Ok(()))
    }
}

impl Value {
    /// Produces a non-owning view of this value with the stated qualifier,
    /// through the to-ref slot of its type's walk.
    pub fn to_ref(&self, reg: &Registry, qual: Qualifier) -> (r: Result<Ref, Error>)
        ensures
            ref_result_view(r) == spec_to_ref(reg@.tables, self@, qual),
    {
        match &self.data {
            None => Err(Error::CallFailed),
            Some(p) => {
                if self.ind.is_null() || self.ind.code - 1 >= reg.tables.len() {
                    return Err(Error::Corruption);
                }
                match reg.find_capability(self.ind, Cap::ToRef) {
                    None => Err(Error::CallFailed),
                    Some(_) => Ok(Ref { data: Some(p.duplicate()), ind: self.ind, qual }),
                }
            },
        }
    }

    /// Assigns into this value's existing instance from a view, through the
    /// assign-if slot of this value's walk; succeeds only if the view's
    /// index matches this value's or is convertible to it.
    pub fn assign_if(&mut self, reg: &Registry, a: &Ref) -> (r: Result<(), Error>)
        ensures
            final(self)@ == spec_assign_if(reg@.tables, old(self)@, a@).0,
            r == spec_assign_if(reg@.tables, old(self)@, a@).1,
    {
        if self.data.is_none() {
            return Err(Error::CallFailed);
        }
        if self.ind.is_null() || self.ind.code - 1 >= reg.tables.len() {
            return Err(Error::Corruption);
        }
        match reg.find_capability(self.ind, Cap::AssignIf) {
            None => Err(Error::CallFailed),
            Some(_) => {
                match &a.data {
                    None => Err(Error::CallFailed),
                    Some(p) => {
                        if !reg.convertible(a.ind, self.ind) {
                            return Err(Error::TypeMismatch);
                        }
                        self.data = Some(p.duplicate());
                        Ok(())
                    },
                }
            },
        }
    }
}

impl Ref {
    /// Materializes an owned value from this view, through the to-value
    /// slot of the denoted type's walk.
    pub fn to_value(&self, reg: &Registry) -> (r: Result<Value, Error>)
        ensures
            value_result_view(r) == spec_to_value(reg@.tables, self@),
    {
        match &self.data {
            None => Err(Error::CallFailed),
            Some(p) => {
                if self.ind.is_null() || self.ind.code - 1 >= reg.tables.len() {
                    return Err(Error::Corruption);
                }
                match reg.find_capability(self.ind, Cap::ToValue) {
                    None => Err(Error::CallFailed),
                    Some(_) => Ok(Value { data: Some(p.duplicate()), ind: self.ind }),
                }
            },
        }
    }
}

/// The resolution scope handed to [`Registry::from_ref`]: whether implicit
/// conversion across declared bases is allowed, or only an exact index
/// match.
#[derive(Clone, Copy, PartialEq, Eq, Structural, Debug)]
pub struct Scope {
    pub implicit_bases: bool,
}

/// What constructing from a view does: a brand-new owned value of the
/// target type, through the from-ref slot of the target's walk, from a view
/// whose index matches the target exactly — or is convertible to it, where
/// the scope allows implicit base conversion.
pub open spec fn spec_from_ref(tables: Seq<TableV>, target: Index, a: RefV, scope: Scope) -> Result<
    ValueV,
    Error,
> {
    if !ind_ok(tables, target) {
        Err(Error::Corruption)
    } else if resolve_cap(tables, target, Cap::FromRef, tables.len() as nat) is None {
        Err(Error::CallFailed)
    } else if a.data is None {
        Err(Error::CallFailed)
    } else if !(a.ind == target || (scope.implicit_bases && reaches_base(
        tables,
        a.ind,
        target,
        tables.len() as nat,
    ))) {
        Err(Error::TypeMismatch)
    } else {
        Ok(ValueV { data: a.data, ind: target })
    }
}

/// What invocation does: resolve the name in the flat namespace, then call
/// the bound value on the marshaled arguments. A failed lookup and a failed
/// dispatch stay distinguishable.
pub open spec fn spec_invoke(m: RegistryV, name: Seq<char>, args: Seq<RefV>) -> Result<
    ValueV,
    Error,
> {
    match spec_lookup(m, name) {
        Ok(callee) => spec_call(m.tables, callee, args),
        Err(e) => Err(e),
    }
}

impl Registry {
    /// Constructs a brand-new owned value of the type `target` denotes from
    /// a view, through the target's from-ref slot, under the given
    /// resolution scope.
    pub fn from_ref(&self, target: Index, a: &Ref, scope: &Scope) -> (r: Result<Value, Error>)
        ensures
            value_result_view(r) == spec_from_ref(self@.tables, target, a@, *scope),
    {
        if target.is_null() || target.code - 1 >= self.tables.len() {
            return Err(Error::Corruption);
        }
        if self.find_capability(target, Cap::FromRef).is_none() {
            return Err(Error::CallFailed);
        }
        match &a.data {
            None => Err(Error::CallFailed),
            Some(p) => {
                let exact = a.ind == target;
                if !(exact || (scope.implicit_bases && self.convertible(a.ind, target))) {
                    return Err(Error::TypeMismatch);
                }
                Ok(Value { data: Some(p.duplicate()), ind: target })
            },
        }
    }

    /// Composes lookup and call: resolves `name` to its global value and
    /// calls it on `args`.
    pub fn invoke(&self, name: &str, args: &Vec<Ref>) -> (r: Result<Value, Error>)
        ensures
            value_result_view(r) == spec_invoke(self@, name@, refs_view(args@)),
    {
        match self.lookup(name) {
            Ok(callee) => callee.call(self, args),
            Err(e) => Err(e),
        }
    }
}

} // verus!
