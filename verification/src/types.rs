//! The fully reduced values of the contract language.
//!
//! The general value and type system is an external collaborator; only the
//! shapes that the boundary layer itself must distinguish are modelled here.

use vstd::prelude::*;

verus! {

/// A fully reduced value of the language.
///
/// `Void` is the language's "absent" value: it is what a storage fetch
/// returns when no entry exists for a key.
#[derive(Clone, Copy, PartialEq, Eq, Structural, Debug)]
pub enum Value {
    Int(i128),
    Bool(bool),
    Void,
}

} // verus!
