use vstd::prelude::*;
use crate::index::Index;
use crate::qualifier::Qualifier;

verus! {

/// What a callable computes from its marshaled arguments.
#[derive(Clone, Copy, PartialEq, Eq, Structural, Debug)]
pub enum Op {
    /// Ignores the arguments and produces the given integer: a bound result.
    Constant(i64),
    /// Adds the integer arguments left to right; a partial sum outside the
    /// `i64` range fails the call.
    Sum,
    /// Hands back the payload of the argument at the given position: an
    /// accessor or identity.
    Arg(usize),
}

/// One parameter slot of a callable: the index the argument must be
/// convertible to, and the qualifier class it must satisfy.
#[derive(Clone, Copy, PartialEq, Eq, Structural, Debug)]
pub struct Param {
    pub ind: Index,
    pub qual: Qualifier,
}

/// A callable instance: the parameter slots its arguments are resolved
/// against, the index of the type its result owns, and what it computes.
#[derive(PartialEq, Eq, Debug)]
pub struct Function {
    pub params: Vec<Param>,
    pub result: Index,
    pub op: Op,
}

/// The mathematical shape of a [`Function`].
#[verifier::ext_equal]
pub ghost struct FunctionV {
    pub params: Seq<Param>,
    pub result: Index,
    pub op: Op,
}

impl View for Function {
    type V = FunctionV;

    open spec fn view(&self) -> FunctionV {
        FunctionV { params: self.params@, result: self.result, op: self.op }
    }
}

impl Function {
    /// Bundles the parts of a callable.
    pub fn new(params: Vec<Param>, result: Index, op: Op) -> (r: Function)
        ensures
            r@ == (FunctionV { params: params@, result, op }),
    {
        Function { params, result, op }
    }

    /// An independent copy of this callable.
    pub fn duplicate(&self) -> (r: Function)
        ensures
            r@ == self@,
    {
        let mut params: Vec<Param> = Vec::new();
        let mut i: usize = 0;
        while i < self.params.len()
            invariant
                i <= self.params.len(),
                params@ == self.params@.subrange(0, i as int),
            decreases self.params.len() - i,
        {
            params.push(self.params[i]);
            i = i + 1;
        }
        proof {
            assert(params@ =~= self.params@);
        }
        Function { params, result: self.result, op: self.op }
    }
}

/// One owned instance of a registered type, as the bridge stores it: an
/// integer, an opaque block of words, or a callable.
#[derive(PartialEq, Eq, Debug)]
pub enum Payload {
    Int(i64),
    Words(Vec<u64>),
    Func(Function),
}

/// The mathematical shape of a [`Payload`].
#[verifier::ext_equal]
pub ghost enum PayloadV {
    Int(i64),
    Words(Seq<u64>),
    Func(FunctionV),
}

impl View for Payload {
    type V = PayloadV;

    open spec fn view(&self) -> PayloadV {
        match self {
            Payload::Int(n) => PayloadV::Int(*n),
            Payload::Words(w) => PayloadV::Words(w@),
            Payload::Func(f) => PayloadV::Func(f@),
        }
    }
}

impl Payload {
    /// An independent copy of this instance: equal content, separate
    /// storage.
    pub fn duplicate(&self) -> (r: Payload)
        ensures
            r@ == self@,
    {
        match self {
            Payload::Int(n) => Payload::Int(*n),
            Payload::Words(w) => {
                let mut copy_words: Vec<u64> = Vec::new();
                let mut i: usize = 0;
                while i < w.len()
                    invariant
                        i <= w.len(),
                        copy_words@ == w@.subrange(0, i as int),
                    decreases w.len() - i,
                {
                    copy_words.push(w[i]);
                    i = i + 1;
                }
                proof {
                    assert(copy_words@ =~= w@);
                }
                Payload::Words(copy_words)
            },
            Payload::Func(f) => Payload::Func(f.duplicate()),
        }
    }
}

} // verus!
