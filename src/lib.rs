//! Typed, validated names for version-control references ("refnames").
//!
//! Text enters only through validating constructors; the name types convert
//! into one another without failing; `Reference` composes namespace, remote
//! and category scoping into canonical names and patterns.

pub mod grammar;
pub mod name;
pub mod percent;
pub mod reference;
pub mod signature;

pub use grammar::GrammarError;
pub use name::{Error, OneLevel, Qualified, RefLike, RefspecPattern, StripPrefixError};
pub use reference::{AsNamespace, AsRemote, Force, Reference, RefsCategory, SymbolicRef};
pub use signature::Signature;
