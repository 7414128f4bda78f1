//! The five special-form entry points that the evaluator collaborator
//! dispatches to, one per head symbol, and the public expression evaluator.
//!
//! Each entry point runs under the depth budget its environment was granted
//! (`call_limit`); its full behaviour is stated by the corresponding
//! postcondition predicate.

use vstd::prelude::*;
use crate::types::Value;
use crate::errors::Error;
use crate::contexts::{Environment, LocalContext};
use crate::eval::{
    contract_call_form, contract_call_post, delete_form, delete_post, eval_expr, eval_post,
    fetch_form, fetch_post, insert_form, insert_post, set_form, set_post,
};
use crate::representations::SymbolicExpression;
use crate::semantics::{
    ctx_view, env_model, expr_view, exprs_view, mirrors, spec_contract_call, spec_delete,
    spec_eval, spec_execute, spec_fetch, spec_insert, spec_set,
};

verus! {

/// Reduces an expression against the environment and the lexical context.
pub fn eval(
    expr: &SymbolicExpression,
    env: &mut Environment,
    context: &LocalContext,
) -> (r: Result<Value, Error>)
    requires
        old(env).wf(),
    ensures
        eval_post(*expr, *context, *old(env), *final(env), r, old(env).call_limit),
        mirrors(
            r,
            *final(env),
            spec_eval(
                expr_view(*expr),
                ctx_view(context.bindings@),
                env_model(*old(env)),
                old(env).call_limit,
            ),
        ),
{
    let fuel = env.call_limit;
    eval_expr(expr, env, context, fuel)
}

/// The cross-contract call form:
/// `(contract-call contract-name function-name args...)`.
pub fn special_contract_call(
    args: &[SymbolicExpression],
    env: &mut Environment,
    context: &LocalContext,
) -> (r: Result<Value, Error>)
    requires
        old(env).wf(),
    ensures
        contract_call_post(args@, *context, *old(env), *final(env), r, old(env).call_limit),
        mirrors(
            r,
            *final(env),
            spec_contract_call(
                exprs_view(args@),
                ctx_view(context.bindings@),
                env_model(*old(env)),
                old(env).call_limit,
            ),
        ),
{
    let fuel = env.call_limit;
    contract_call_form(args, env, context, fuel)
}

/// The storage fetch form: `(fetch-entry map-name key)`.
pub fn special_fetch_entry(
    args: &[SymbolicExpression],
    env: &mut Environment,
    context: &LocalContext,
) -> (r: Result<Value, Error>)
    requires
        old(env).wf(),
    ensures
        fetch_post(args@, *context, *old(env), *final(env), r),
        mirrors(
            r,
            *final(env),
            spec_fetch(
                exprs_view(args@),
                ctx_view(context.bindings@),
                env_model(*old(env)),
                old(env).call_limit,
            ),
        ),
{
    let fuel = env.call_limit;
    fetch_form(args, env, context, fuel)
}

/// The storage set form: `(set-entry! map-name key value)`.
pub fn special_set_entry(
    args: &[SymbolicExpression],
    env: &mut Environment,
    context: &LocalContext,
) -> (r: Result<Value, Error>)
    requires
        old(env).wf(),
    ensures
        set_post(args@, *context, *old(env), *final(env), r),
        mirrors(
            r,
            *final(env),
            spec_set(
                exprs_view(args@),
                ctx_view(context.bindings@),
                env_model(*old(env)),
                old(env).call_limit,
            ),
        ),
{
    let fuel = env.call_limit;
    set_form(args, env, context, fuel)
}

/// The storage insert form: `(insert-entry! map-name key value)`.
pub fn special_insert_entry(
    args: &[SymbolicExpression],
    env: &mut Environment,
    context: &LocalContext,
) -> (r: Result<Value, Error>)
    requires
        old(env).wf(),
    ensures
        insert_post(args@, *context, *old(env), *final(env), r),
        mirrors(
            r,
            *final(env),
            spec_insert(
                exprs_view(args@),
                ctx_view(context.bindings@),
                env_model(*old(env)),
                old(env).call_limit,
            ),
        ),
{
    let fuel = env.call_limit;
    insert_form(args, env, context, fuel)
}

/// The storage delete form: `(delete-entry! map-name key)`.
pub fn special_delete_entry(
    args: &[SymbolicExpression],
    env: &mut Environment,
    context: &LocalContext,
) -> (r: Result<Value, Error>)
    requires
        old(env).wf(),
    ensures
        delete_post(args@, *context, *old(env), *final(env), r),
        mirrors(
            r,
            *final(env),
            spec_delete(
                exprs_view(args@),
                ctx_view(context.bindings@),
                env_model(*old(env)),
                old(env).call_limit,
            ),
        ),
{
    let fuel = env.call_limit;
    delete_form(args, env, context, fuel)
}

} // verus!
