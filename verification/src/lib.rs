//! A type-erased value bridge: a dynamically-typed caller exchanges owned
//! values and borrowed views with statically-typed code without either side
//! naming the other's concrete types.
//!
//! The pieces, leaves first:
//! - [`index::Index`]: a stable identity token, one per registered type.
//! - [`table::Table`]: per type, the set of operation slots the type offers
//!   (copy, to-value, to-ref, assign-if, from-ref) and its declared bases.
//! - [`value::Value`]: an owning, type-erased container for one instance.
//! - [`value::Ref`]: a non-owning, qualified view of an instance.
//! - [`registry::Registry`]: the explicit, owned table storage, the flat
//!   namespace of global values, and the invocation layer.
//!
//! Every operation that can fail returns an [`error::Error`]: no operation
//! hands back a silently empty value in place of a failure.

pub mod error;
pub mod index;
pub mod laws;
pub mod payload;
pub mod qualifier;
pub mod registry;
pub mod table;
pub mod value;
