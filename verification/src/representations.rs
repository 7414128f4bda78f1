//! Symbolic expression trees, as the parser collaborator hands them to the
//! evaluator.
//!
//! Argument positions of a special form come in two shapes: names, which are
//! plain identifier atoms resolved at dispatch time and never evaluated, and
//! value positions, which are expressions reduced at run time.  A
//! pre-evaluated argument node (`AtomValue`) already holds a reduced value
//! and is suitable for re-injection into a callee's parameter binding.

use vstd::prelude::*;
use crate::types::Value;
use crate::semantics::{expr_view, exprs_view, lemma_exprs_view};

verus! {

/// A symbolic expression of the contract language.
#[derive(Debug)]
pub enum SymbolicExpression {
    /// A bare identifier: a variable in a value position, or a map,
    /// contract or function name in a name position.
    Atom(String),
    /// A pre-evaluated argument node carrying a reduced value.
    AtomValue(Value),
    /// An application: a head symbol followed by argument expressions.
    List(Vec<SymbolicExpression>),
}

impl Clone for SymbolicExpression {
    /// A structural copy: the clone has the same abstract form as the
    /// original, so evaluating it means the same thing.
    fn clone(&self) -> (res: Self)
        ensures
            expr_view(res) == expr_view(*self),
        decreases *self,
    {
        match self {
            SymbolicExpression::Atom(s) => SymbolicExpression::Atom(s.clone()),
            SymbolicExpression::AtomValue(v) => SymbolicExpression::AtomValue(*v),
            SymbolicExpression::List(vs) => {
                let mut out: Vec<SymbolicExpression> = Vec::new();
                let mut i: usize = 0;
                while i < vs.len()
                    invariant
                        *self matches SymbolicExpression::List(l) && l == *vs,
                        0 <= i <= vs@.len(),
                        out@.len() == i,
                        forall|j: int|
                            0 <= j < i ==> expr_view(out@[j]) == expr_view(vs@[j]),
                    decreases vs.len() - i,
                {
                    proof {
                        assert(decreases_to!(*self => self->List_0));
                        assert(decreases_to!(self->List_0 => self->List_0@));
                        assert(decreases_to!(self->List_0@ => self->List_0@[i as int]));
                        assert(vs@[i as int] == self->List_0@[i as int]);
                        assert(decreases_to!(*self => vs@[i as int]));
                    }
                    out.push(vs[i].clone());
                    i = i + 1;
                }
                let res = SymbolicExpression::List(out);
                proof {
                    lemma_exprs_view(res->List_0@);
                    lemma_exprs_view(vs@);
                    assert(exprs_view(res->List_0@) =~= exprs_view(vs@));
                }
                res
            },
        }
    }
}

impl SymbolicExpression {
    /// Wraps a reduced value as a pre-evaluated argument node.
    pub fn atom_value(val: Value) -> (e: SymbolicExpression)
        ensures
            e matches SymbolicExpression::AtomValue(v) && v == val,
    {
        SymbolicExpression::AtomValue(val)
    }
}

} // verus!
