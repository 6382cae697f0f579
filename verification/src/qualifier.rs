use vstd::prelude::*;
use crate::error::Error;

verus! {

/// How a [`crate::value::Ref`] may be used: read only (`Const`), through a
/// named binding (`Lvalue`), or with leave to consume the referent
/// (`Rvalue`). Any other encoding at the boundary is a corruption and is
/// rejected by [`Qualifier::decode`], never coerced.
#[derive(Clone, Copy, PartialEq, Eq, Structural, Debug)]
pub enum Qualifier {
    Const,
    Lvalue,
    Rvalue,
}

/// The decoding of a raw qualifier byte: the three valid encodings, and
/// `Corruption` for every other byte.
pub open spec fn spec_decode(raw: u8) -> Result<Qualifier, Error> {
    if raw == 0 {
        Ok(Qualifier::Const)
    } else if raw == 1 {
        Ok(Qualifier::Lvalue)
    } else if raw == 2 {
        Ok(Qualifier::Rvalue)
    } else {
        Err(Error::Corruption)
    }
}

/// Whether an argument with qualifier `given` may stand where `required` is
/// asked: a `Const` slot accepts every qualifier; an `Lvalue` or `Rvalue`
/// slot accepts exactly its own.
pub open spec fn spec_accepts(required: Qualifier, given: Qualifier) -> bool {
    match required {
        Qualifier::Const => true,
        Qualifier::Lvalue => given is Lvalue,
        Qualifier::Rvalue => given is Rvalue,
    }
}

impl Qualifier {
    /// Validates a raw byte as read at the boundary.
    pub fn decode(raw: u8) -> (r: Result<Qualifier, Error>)
        ensures
            r == spec_decode(raw),
    {
        match raw {
            0 => Ok(Qualifier::Const),
            1 => Ok(Qualifier::Lvalue),
            2 => Ok(Qualifier::Rvalue),
            _ => Err(Error::Corruption),
        }
    }

    /// The boundary encoding of this qualifier; decoding it gives the
    /// qualifier back.
    pub fn encode(&self) -> (r: u8)
        ensures
            spec_decode(r) == Ok::<Qualifier, Error>(*self),
    {
        match self {
            Qualifier::Const => 0,
            Qualifier::Lvalue => 1,
            Qualifier::Rvalue => 2,
        }
    }
}

/// Decides [`spec_accepts`].
pub fn accepts(required: Qualifier, given: Qualifier) -> (r: bool)
    ensures
        r == spec_accepts(required, given),
{
    match required {
        Qualifier::Const => true,
        Qualifier::Lvalue => matches!(given, Qualifier::Lvalue),
        Qualifier::Rvalue => matches!(given, Qualifier::Rvalue),
    }
}

} // verus!
