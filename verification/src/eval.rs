//! The evaluator core: expression reduction, the fueled bodies of the five
//! special forms, and cross-contract execution.
//!
//! Termination of the mutual recursion between the evaluator, the special
//! forms and contract execution is paid for by an explicit depth budget
//! (`fuel`); the budget that a top-level invocation starts from is the
//! environment's `call_limit`, granted by the external resource-limiting
//! collaborator.
//!
//! Each special form is a gateway: it validates its arguments, evaluates its
//! value positions left to right, delegates to the store or to contract
//! execution, and, on the way out, enriches a failure with the call stack's
//! rendered trace.  Enrichment fills the trace exactly once, at the
//! innermost gateway that sees the error; the frames of failed invocations
//! are retained on the stack, so the trace recorded there already names the
//! whole failed chain.

use vstd::prelude::*;
use crate::types::Value;
use crate::errors::{kind_carries_trace, ErrKind, Error, StackFrame};
use crate::database::{fetch_result, msg_unknown_map};
use crate::contexts::{
    find_contract, find_function, lookup_binding, CallStack, Contract, ContractFunction,
    Environment, LocalContext,
};
use crate::semantics::fn_view;
use crate::representations::SymbolicExpression;
use crate::semantics::{
    ctx_view, enrich_model, env_model, err_matches, expr_view, exprs_view, frames_view,
    lemma_enrich_matches, lemma_exprs_view, lemma_find_contract_view,
    lemma_find_function_view, lemma_fresh_matches, lemma_lookup_view, mirrors, msg_cc_arity,
    msg_cc_contract_name, msg_cc_function_name, msg_delete_arity, msg_depth,
    msg_empty_application, msg_fetch_arity, msg_head_not_name, msg_insert_arity, msg_map_name,
    msg_no_sender, msg_param_count, msg_set_arity, msg_undefined_function,
    msg_undefined_variable, msg_unknown_contract, msg_unknown_function_target, spec_contract_call,
    spec_delete, spec_eval, spec_eval_args, spec_execute, spec_fetch, spec_insert, spec_set,
    EnvModel, ErrModel, ExprModel,
};

verus! {

// ---------------------------------------------------------------------------
// Result-shape predicates
// ---------------------------------------------------------------------------

/// `r` is a freshly raised error of the given kind and message, its trace
/// slot still untouched (empty for kinds that carry one, absent otherwise).
pub open spec fn fresh_err(r: Result<Value, Error>, kind: ErrKind, msg: Seq<char>) -> bool {
    &&& r matches Err(e)
    &&& e.kind == kind
    &&& e.message@ == msg
    &&& kind_carries_trace(kind) ==> (e.trace matches Some(t) && t@.len() == 0)
    &&& !kind_carries_trace(kind) ==> e.trace is None
}

/// `r` is an error of a trace-carrying kind as it leaves a gateway: its
/// trace holds the given rendered call stack.
pub open spec fn enriched_err(
    r: Result<Value, Error>,
    kind: ErrKind,
    msg: Seq<char>,
    frames: Seq<StackFrame>,
) -> bool {
    &&& r matches Err(e)
    &&& e.kind == kind
    &&& e.message@ == msg
    &&& e.trace matches Some(t)
    &&& t@ == frames
}

/// The trace discipline every failure obeys: an error of a trace-carrying
/// kind holds a trace that is either still empty (no gateway has seen it) or
/// the rendering of the current call stack (whose retained frames name the
/// failed chain).
pub open spec fn trace_ok(e: Error, frames: Seq<StackFrame>) -> bool {
    kind_carries_trace(e.kind) ==> (e.trace matches Some(t) && (t@.len() == 0 || t@ == frames))
}

/// What a gateway guarantees of every failure it lets out: an error of a
/// trace-carrying kind leaves with its trace filled, and what fills it is
/// the rendering of the call stack as the failure left it, whose retained
/// frames name every invocation of the failed chain.
pub open spec fn gateway_trace(r: Result<Value, Error>, frames: Seq<StackFrame>) -> bool {
    match r {
        Err(e) => kind_carries_trace(e.kind) ==> (e.trace matches Some(t) && t@ == frames),
        Ok(_) => true,
    }
}

// ---------------------------------------------------------------------------
// Environment evolution predicates
// ---------------------------------------------------------------------------

/// What every operation of this layer preserves of the environment: the
/// sender, the executing contract's identity, the deployed contracts, the
/// depth budget, the store's well-formedness and its declared namespaces;
/// and the call stack only ever grows (frames of failed invocations are
/// retained).
pub open spec fn env_frame(pre: Environment, post: Environment) -> bool {
    &&& post.sender == pre.sender
    &&& post.contract_context == pre.contract_context
    &&& post.global_context.contracts == pre.global_context.contracts
    &&& post.call_limit == pre.call_limit
    &&& post.global_context.database.wf()
    &&& post.global_context.database.declared() == pre.global_context.database.declared()
    &&& pre.call_stack.frames@.is_prefix_of(post.call_stack.frames@)
}

/// `env_frame`, plus: an operation that returns normally leaves the call
/// stack exactly as it found it, and a failure obeys the trace discipline.
pub open spec fn eval_frame(pre: Environment, post: Environment, r: Result<Value, Error>) -> bool {
    &&& env_frame(pre, post)
    &&& r is Ok ==> post.call_stack.frames@ == pre.call_stack.frames@
    &&& (r matches Err(e) ==> trace_ok(e, post.call_stack.frames@))
}

// ---------------------------------------------------------------------------
// Expression-shape helpers
// ---------------------------------------------------------------------------

/// The value an argument expression reduces to without touching the
/// environment: a pre-evaluated node's value, or a bound identifier's value.
/// `None` for an unbound identifier or a nested application.
pub open spec fn simple_value(e: SymbolicExpression, ctx: LocalContext) -> Option<Value> {
    match e {
        SymbolicExpression::Atom(n) => lookup_binding(ctx.bindings@, n@),
        SymbolicExpression::AtomValue(v) => Some(v),
        SymbolicExpression::List(_) => None,
    }
}

/// The identifier an atom carries (empty for non-atoms; only read under an
/// `is Atom` guard).
pub open spec fn atom_name(e: SymbolicExpression) -> Seq<char> {
    match e {
        SymbolicExpression::Atom(n) => n@,
        _ => Seq::empty(),
    }
}

/// The expression is an identifier atom that the lexical context leaves
/// unbound.
pub open spec fn unbound_atom(e: SymbolicExpression, ctx: LocalContext) -> bool {
    e is Atom && lookup_binding(ctx.bindings@, atom_name(e)) is None
}

// ---------------------------------------------------------------------------
// Contract postconditions of the special forms
// ---------------------------------------------------------------------------

/// Postcondition of the expression evaluator.
pub open spec fn eval_post(
    e: SymbolicExpression,
    ctx: LocalContext,
    pre: Environment,
    post: Environment,
    r: Result<Value, Error>,
    fuel: u64,
) -> bool {
    &&& eval_frame(pre, post, r)
    &&& (e matches SymbolicExpression::AtomValue(v) ==> post == pre && r == Ok::<Value, Error>(v))
    &&& (e matches SymbolicExpression::Atom(n) ==> post == pre && (match lookup_binding(
        ctx.bindings@,
        n@,
    ) {
        Some(v) => r == Ok::<Value, Error>(v),
        None => fresh_err(r, ErrKind::UndefinedVariable, msg_undefined_variable()),
    }))
    &&& (e matches SymbolicExpression::List(exprs) ==> {
        let rest = exprs@.subrange(1, exprs@.len() as int);
        &&& fuel == 0 ==> post == pre && fresh_err(r, ErrKind::MaxStackDepthReached, msg_depth())
        &&& fuel > 0 && exprs@.len() == 0 ==> post == pre && fresh_err(
            r,
            ErrKind::InvalidArguments,
            msg_empty_application(),
        )
        &&& fuel > 0 && exprs@.len() > 0 && !(exprs@[0] is Atom) ==> post == pre && fresh_err(
            r,
            ErrKind::InvalidArguments,
            msg_head_not_name(),
        )
        &&& fuel > 0 && exprs@.len() > 0 && exprs@[0] is Atom ==> {
            let h = atom_name(exprs@[0]);
            &&& h == "fetch-entry"@ ==> fetch_post(rest, ctx, pre, post, r)
            &&& h == "set-entry!"@ ==> set_post(rest, ctx, pre, post, r)
            &&& h == "insert-entry!"@ ==> insert_post(rest, ctx, pre, post, r)
            &&& h == "delete-entry!"@ ==> delete_post(rest, ctx, pre, post, r)
            &&& h == "contract-call"@ ==> contract_call_post(
                rest,
                ctx,
                pre,
                post,
                r,
                (fuel - 1) as u64,
            )
            &&& (h != "fetch-entry"@ && h != "set-entry!"@ && h != "insert-entry!"@ && h
                != "delete-entry!"@ && h != "contract-call"@) ==> post == pre && fresh_err(
                r,
                ErrKind::UndefinedFunction,
                msg_undefined_function(),
            )
        }
    })
}

/// Postcondition of the storage fetch form.
pub open spec fn fetch_post(
    args: Seq<SymbolicExpression>,
    ctx: LocalContext,
    pre: Environment,
    post: Environment,
    r: Result<Value, Error>,
) -> bool {
    let frames0 = pre.call_stack.frames@;
    let c = pre.contract_context.name@;
    let db = pre.global_context.database;
    &&& eval_frame(pre, post, r)
    &&& gateway_trace(r, post.call_stack.frames@)
    &&& r is Ok ==> args.len() == 2 && args[0] is Atom && db.declared().contains(
        (c, atom_name(args[0])),
    )
    &&& args.len() != 2 ==> post == pre && enriched_err(
        r,
        ErrKind::InvalidArguments,
        msg_fetch_arity(),
        frames0,
    )
    &&& args.len() == 2 && !(args[0] is Atom) ==> post == pre && enriched_err(
        r,
        ErrKind::InvalidArguments,
        msg_map_name(),
        frames0,
    )
    &&& args.len() == 2 && args[0] is Atom ==> {
        let m = atom_name(args[0]);
        &&& (simple_value(args[1], ctx) matches Some(k) ==> post == pre && (if db.declared()
            .contains((c, m)) {
            r == Ok::<Value, Error>(fetch_result(db.contents(), (c, m, k)))
        } else {
            enriched_err(r, ErrKind::UnknownMap, msg_unknown_map(), frames0)
        }))
        &&& unbound_atom(args[1], ctx) ==> post == pre && fresh_err(
            r,
            ErrKind::UndefinedVariable,
            msg_undefined_variable(),
        )
    }
}

/// Postcondition of the storage set form.
pub open spec fn set_post(
    args: Seq<SymbolicExpression>,
    ctx: LocalContext,
    pre: Environment,
    post: Environment,
    r: Result<Value, Error>,
) -> bool {
    let frames0 = pre.call_stack.frames@;
    let c = pre.contract_context.name@;
    let db = pre.global_context.database;
    &&& eval_frame(pre, post, r)
    &&& gateway_trace(r, post.call_stack.frames@)
    &&& r is Ok ==> args.len() == 3 && args[0] is Atom && db.declared().contains(
        (c, atom_name(args[0])),
    )
    &&& args.len() != 3 ==> post == pre && enriched_err(
        r,
        ErrKind::InvalidArguments,
        msg_set_arity(),
        frames0,
    )
    &&& args.len() == 3 && !(args[0] is Atom) ==> post == pre && enriched_err(
        r,
        ErrKind::InvalidArguments,
        msg_map_name(),
        frames0,
    )
    &&& args.len() == 3 && args[0] is Atom ==> {
        let m = atom_name(args[0]);
        &&& (simple_value(args[1], ctx) matches Some(k) ==> {
            &&& (simple_value(args[2], ctx) matches Some(v) ==> (if db.declared().contains(
                (c, m),
            ) {
                &&& r == Ok::<Value, Error>(Value::Bool(true))
                &&& post.global_context.database.contents() == db.contents().insert((c, m, k), v)
                &&& post.call_stack == pre.call_stack
                &&& post.sender == pre.sender
                &&& post.contract_context == pre.contract_context
                &&& post.global_context.contracts == pre.global_context.contracts
                &&& post.call_limit == pre.call_limit
            } else {
                post == pre && enriched_err(r, ErrKind::UnknownMap, msg_unknown_map(), frames0)
            }))
            &&& unbound_atom(args[2], ctx) ==> post == pre && fresh_err(
                r,
                ErrKind::UndefinedVariable,
                msg_undefined_variable(),
            )
        })
        &&& unbound_atom(args[1], ctx) ==> post == pre && fresh_err(
            r,
            ErrKind::UndefinedVariable,
            msg_undefined_variable(),
        )
    }
}

/// Postcondition of the storage insert form.
pub open spec fn insert_post(
    args: Seq<SymbolicExpression>,
    ctx: LocalContext,
    pre: Environment,
    post: Environment,
    r: Result<Value, Error>,
) -> bool {
    let frames0 = pre.call_stack.frames@;
    let c = pre.contract_context.name@;
    let db = pre.global_context.database;
    &&& eval_frame(pre, post, r)
    &&& gateway_trace(r, post.call_stack.frames@)
    &&& r is Ok ==> args.len() == 3 && args[0] is Atom && db.declared().contains(
        (c, atom_name(args[0])),
    )
    &&& args.len() != 3 ==> post == pre && enriched_err(
        r,
        ErrKind::InvalidArguments,
        msg_insert_arity(),
        frames0,
    )
    &&& args.len() == 3 && !(args[0] is Atom) ==> post == pre && enriched_err(
        r,
        ErrKind::InvalidArguments,
        msg_map_name(),
        frames0,
    )
    &&& args.len() == 3 && args[0] is Atom ==> {
        let m = atom_name(args[0]);
        &&& (simple_value(args[1], ctx) matches Some(k) ==> {
            &&& (simple_value(args[2], ctx) matches Some(v) ==> (if !db.declared().contains(
                (c, m),
            ) {
                post == pre && enriched_err(r, ErrKind::UnknownMap, msg_unknown_map(), frames0)
            } else if db.contents().contains_key((c, m, k)) {
                post == pre && r == Ok::<Value, Error>(Value::Bool(false))
            } else {
                &&& r == Ok::<Value, Error>(Value::Bool(true))
                &&& post.global_context.database.contents() == db.contents().insert((c, m, k), v)
                &&& post.call_stack == pre.call_stack
                &&& post.sender == pre.sender
                &&& post.contract_context == pre.contract_context
                &&& post.global_context.contracts == pre.global_context.contracts
                &&& post.call_limit == pre.call_limit
            }))
            &&& unbound_atom(args[2], ctx) ==> post == pre && fresh_err(
                r,
                ErrKind::UndefinedVariable,
                msg_undefined_variable(),
            )
        })
        &&& unbound_atom(args[1], ctx) ==> post == pre && fresh_err(
            r,
            ErrKind::UndefinedVariable,
            msg_undefined_variable(),
        )
    }
}

/// Postcondition of the storage delete form.
pub open spec fn delete_post(
    args: Seq<SymbolicExpression>,
    ctx: LocalContext,
    pre: Environment,
    post: Environment,
    r: Result<Value, Error>,
) -> bool {
    let frames0 = pre.call_stack.frames@;
    let c = pre.contract_context.name@;
    let db = pre.global_context.database;
    &&& eval_frame(pre, post, r)
    &&& gateway_trace(r, post.call_stack.frames@)
    &&& r is Ok ==> args.len() == 2 && args[0] is Atom && db.declared().contains(
        (c, atom_name(args[0])),
    )
    &&& args.len() != 2 ==> post == pre && enriched_err(
        r,
        ErrKind::InvalidArguments,
        msg_delete_arity(),
        frames0,
    )
    &&& args.len() == 2 && !(args[0] is Atom) ==> post == pre && enriched_err(
        r,
        ErrKind::InvalidArguments,
        msg_map_name(),
        frames0,
    )
    &&& args.len() == 2 && args[0] is Atom ==> {
        let m = atom_name(args[0]);
        &&& (simple_value(args[1], ctx) matches Some(k) ==> (if !db.declared().contains((c, m)) {
            post == pre && enriched_err(r, ErrKind::UnknownMap, msg_unknown_map(), frames0)
        } else if !db.contents().contains_key((c, m, k)) {
            post == pre && r == Ok::<Value, Error>(Value::Bool(false))
        } else {
            &&& r == Ok::<Value, Error>(Value::Bool(true))
            &&& post.global_context.database.contents() == db.contents().remove((c, m, k))
            &&& post.call_stack == pre.call_stack
            &&& post.sender == pre.sender
            &&& post.contract_context == pre.contract_context
            &&& post.global_context.contracts == pre.global_context.contracts
            &&& post.call_limit == pre.call_limit
        }))
        &&& unbound_atom(args[1], ctx) ==> post == pre && fresh_err(
            r,
            ErrKind::UndefinedVariable,
            msg_undefined_variable(),
        )
    }
}

/// Postcondition of the cross-contract call form.
pub open spec fn contract_call_post(
    args: Seq<SymbolicExpression>,
    ctx: LocalContext,
    pre: Environment,
    post: Environment,
    r: Result<Value, Error>,
    fuel: u64,
) -> bool {
    let frames0 = pre.call_stack.frames@;
    &&& eval_frame(pre, post, r)
    &&& gateway_trace(r, post.call_stack.frames@)
    &&& r is Ok ==> fuel > 0 && args.len() >= 2 && pre.sender is Some && args[0] is Atom && args[1]
        is Atom
    &&& args.len() < 2 ==> post == pre && enriched_err(
        r,
        ErrKind::InvalidArguments,
        msg_cc_arity(),
        frames0,
    )
    &&& args.len() >= 2 && pre.sender is None ==> post == pre && enriched_err(
        r,
        ErrKind::InvalidArguments,
        msg_no_sender(),
        frames0,
    )
    &&& args.len() >= 2 && pre.sender is Some && !(args[0] is Atom) ==> post == pre && enriched_err(
        r,
        ErrKind::InvalidArguments,
        msg_cc_contract_name(),
        frames0,
    )
    &&& args.len() >= 2 && pre.sender is Some && args[0] is Atom && !(args[1] is Atom) ==> post
        == pre && enriched_err(r, ErrKind::InvalidArguments, msg_cc_function_name(), frames0)
    &&& args.len() >= 2 && pre.sender is Some && args[0] is Atom && args[1] is Atom && fuel == 0
        ==> post == pre && fresh_err(r, ErrKind::MaxStackDepthReached, msg_depth())
    &&& (args.len() >= 2 && pre.sender is Some && args[0] is Atom && args[1] is Atom && fuel > 0
        && (forall|i: int| 2 <= i < args.len() ==> simple_value(args[i], ctx) is Some)) ==> {
        let target = find_contract(pre.global_context.contracts@, atom_name(args[0]));
        &&& target is None ==> post == pre && enriched_err(
            r,
            ErrKind::UnknownContract,
            msg_unknown_contract(),
            frames0,
        )
        &&& (target matches Some(ct) && find_function(ct.functions@, atom_name(args[1])) is None)
            ==> post == pre && enriched_err(
            r,
            ErrKind::UnknownFunction,
            msg_unknown_function_target(),
            frames0,
        )
        &&& (target matches Some(ct) && find_function(ct.functions@, atom_name(args[1])) matches
            Some(f) && f.params@.len() != args.len() - 2) ==> post == pre && enriched_err(
            r,
            ErrKind::InvalidArguments,
            msg_param_count(),
            frames0,
        )
    }
}

/// Postcondition of cross-contract execution (the contract-execution
/// collaborator).  Resolution failures leave the environment untouched and
/// raise fresh errors; the callee's own result is whatever its body
/// produces, under the frame discipline of `eval_frame`.
pub open spec fn execute_post(
    contract_name: Seq<char>,
    function_name: Seq<char>,
    n_args: int,
    pre: Environment,
    post: Environment,
    r: Result<Value, Error>,
) -> bool {
    let target = find_contract(pre.global_context.contracts@, contract_name);
    &&& eval_frame(pre, post, r)
    &&& r is Ok ==> (target matches Some(ct) && find_function(ct.functions@, function_name)
        matches Some(f) && f.params@.len() == n_args)
    &&& target is None ==> post == pre && fresh_err(
        r,
        ErrKind::UnknownContract,
        msg_unknown_contract(),
    )
    &&& (target matches Some(ct) && find_function(ct.functions@, function_name) is None) ==> post
        == pre && fresh_err(r, ErrKind::UnknownFunction, msg_unknown_function_target())
    &&& (target matches Some(ct) && find_function(ct.functions@, function_name) matches Some(f)
        && f.params@.len() != n_args) ==> post == pre && fresh_err(
        r,
        ErrKind::InvalidArguments,
        msg_param_count(),
    )
}

// ---------------------------------------------------------------------------
// Error enrichment
// ---------------------------------------------------------------------------

/// The error-enrichment layer, run once per gateway invocation: an error of
/// a trace-carrying kind whose trace is still empty gets the current call
/// stack's rendered trace; any other error passes through unchanged.  The
/// kind and the message are never altered.
fn enrich(e: Error, stack: &CallStack) -> (r: Error)
    ensures
        r.kind == e.kind,
        r.message == e.message,
        e.trace is None ==> r.trace == e.trace,
        (e.trace matches Some(t) && t@.len() == 0) ==> (r.trace matches Some(t2) && t2@
            == stack.frames@),
        (e.trace matches Some(t) && t@.len() > 0) ==> r.trace == e.trace,
        forall|em: ErrModel| #[trigger]
            err_matches(e, em) ==> err_matches(r, enrich_model(em, frames_view(stack.frames@))),
{
    let ghost pre = e;
    let mut e = e;
    if e.has_stack_trace() {
        e.extend_with(stack.make_stack_trace());
    }
    proof {
        assert forall|em: ErrModel| err_matches(pre, em) implies err_matches(
            e,
            enrich_model(em, frames_view(stack.frames@)),
        ) by {
            lemma_enrich_matches(pre, e, em, stack.frames@);
        }
    }
    e
}

// ---------------------------------------------------------------------------
// Contract resolution
// ---------------------------------------------------------------------------

/// The index of the first deployed contract of the given name.
fn lookup_contract(contracts: &Vec<Contract>, name: &String) -> (r: Option<usize>)
    ensures
        r matches Some(i) ==> 0 <= i < contracts@.len() && find_contract(contracts@, name@)
            == Some(contracts@[i as int]),
        r is None ==> find_contract(contracts@, name@) is None,
{
    let mut i: usize = 0;
    proof {
        assert(contracts@.skip(0) =~= contracts@);
    }
    while i < contracts.len()
        invariant
            0 <= i <= contracts@.len(),
            find_contract(contracts@, name@) == find_contract(contracts@.skip(i as int), name@),
        decreases contracts@.len() - i,
    {
        proof {
            assert(contracts@.skip(i as int)[0] == contracts@[i as int]);
            assert(contracts@.skip(i as int).drop_first() =~= contracts@.skip(i as int + 1));
        }
        if contracts[i].name == *name {
            return Some(i);
        }
        i = i + 1;
    }
    None
}

/// The index of the first public function of the given name.
fn lookup_function(functions: &Vec<ContractFunction>, name: &String) -> (r: Option<usize>)
    ensures
        r matches Some(i) ==> 0 <= i < functions@.len() && find_function(functions@, name@)
            == Some(functions@[i as int]),
        r is None ==> find_function(functions@, name@) is None,
{
    let mut i: usize = 0;
    proof {
        assert(functions@.skip(0) =~= functions@);
    }
    while i < functions.len()
        invariant
            0 <= i <= functions@.len(),
            find_function(functions@, name@) == find_function(functions@.skip(i as int), name@),
        decreases functions@.len() - i,
    {
        proof {
            assert(functions@.skip(i as int)[0] == functions@[i as int]);
            assert(functions@.skip(i as int).drop_first() =~= functions@.skip(i as int + 1));
        }
        if functions[i].name == *name {
            return Some(i);
        }
        i = i + 1;
    }
    None
}

// ---------------------------------------------------------------------------
// The evaluator, the special forms, and contract execution
// ---------------------------------------------------------------------------

/// Reduces one expression against the environment and the lexical context.
#[verifier::rlimit(60)]
pub fn eval_expr(
    e: &SymbolicExpression,
    env: &mut Environment,
    context: &LocalContext,
    fuel: u64,
) -> (r: Result<Value, Error>)
    requires
        old(env).wf(),
    ensures
        eval_post(*e, *context, *old(env), *final(env), r, fuel),
        mirrors(
            r,
            *final(env),
            spec_eval(expr_view(*e), ctx_view(context.bindings@), env_model(*old(env)), fuel),
        ),
    decreases fuel, 0int,
{
    match e {
        SymbolicExpression::AtomValue(v) => Ok(*v),
        SymbolicExpression::Atom(name) => {
            proof {
                lemma_lookup_view(context.bindings@, name@);
            }
            match context.lookup(name) {
                Some(v) => Ok(v),
                None => {
                    let err = Error::new(
                        ErrKind::UndefinedVariable,
                        "variable not bound in the current context".to_owned(),
                    );
                    proof {
                        lemma_fresh_matches(err, ErrKind::UndefinedVariable, msg_undefined_variable());
                    }
                    Err(err)
                },
            }
        },
        SymbolicExpression::List(exprs) => {
            if fuel == 0 {
                let err = Error::new(
                    ErrKind::MaxStackDepthReached,
                    "evaluation depth budget exhausted".to_owned(),
                );
                proof {
                    lemma_fresh_matches(err, ErrKind::MaxStackDepthReached, msg_depth());
                }
                return Err(err);
            }
            if exprs.len() == 0 {
                let err = Error::new(
                    ErrKind::InvalidArguments,
                    "attempted to evaluate an empty expression".to_owned(),
                );
                proof {
                    lemma_fresh_matches(err, ErrKind::InvalidArguments, msg_empty_application());
                }
                return Err(err);
            }
            match &exprs.as_slice()[0] {
                SymbolicExpression::Atom(head) => {
                    let rest = &exprs.as_slice()[1..exprs.len()];
                    proof {
                        assert(rest@ =~= exprs@.subrange(1, exprs@.len() as int));
                        assert(atom_name(exprs@[0]) == head@);
                        reveal_strlit("fetch-entry");
                        reveal_strlit("set-entry!");
                        reveal_strlit("insert-entry!");
                        reveal_strlit("delete-entry!");
                        reveal_strlit("contract-call");
                        assert("insert-entry!"@[0] == 'i');
                        assert("delete-entry!"@[0] == 'd');
                        assert("contract-call"@[0] == 'c');
                        lemma_exprs_view(exprs@);
                        lemma_exprs_view(rest@);
                        assert(exprs_view(exprs@).subrange(1, exprs@.len() as int) =~= exprs_view(
                            rest@,
                        ));
                        assert(expr_view(exprs@[0]) == ExprModel::Atom(head@));
                    }
                    if *head == "fetch-entry".to_owned() {
                        fetch_form(rest, env, context, fuel - 1)
                    } else if *head == "set-entry!".to_owned() {
                        set_form(rest, env, context, fuel - 1)
                    } else if *head == "insert-entry!".to_owned() {
                        insert_form(rest, env, context, fuel - 1)
                    } else if *head == "delete-entry!".to_owned() {
                        delete_form(rest, env, context, fuel - 1)
                    } else if *head == "contract-call".to_owned() {
                        contract_call_form(rest, env, context, fuel - 1)
                    } else {
                        let err = Error::new(
                            ErrKind::UndefinedFunction,
                            "attempted to apply an unknown function".to_owned(),
                        );
                        proof {
                            lemma_fresh_matches(
                                err,
                                ErrKind::UndefinedFunction,
                                msg_undefined_function(),
                            );
                        }
                        Err(err)
                    }
                },
                _ => {
                    let err = Error::new(
                        ErrKind::InvalidArguments,
                        "expression head must be a function name".to_owned(),
                    );
                    proof {
                        lemma_exprs_view(exprs@);
                        assert(!(expr_view(exprs@[0]) is Atom));
                        lemma_fresh_matches(err, ErrKind::InvalidArguments, msg_head_not_name());
                    }
                    Err(err)
                },
            }
        },
    }
}

/// The storage fetch form: `(fetch-entry map-name key)`.
pub fn fetch_form(
    args: &[SymbolicExpression],
    env: &mut Environment,
    context: &LocalContext,
    fuel: u64,
) -> (r: Result<Value, Error>)
    requires
        old(env).wf(),
    ensures
        fetch_post(args@, *context, *old(env), *final(env), r),
        mirrors(
            r,
            *final(env),
            spec_fetch(exprs_view(args@), ctx_view(context.bindings@), env_model(*old(env)), fuel),
        ),
    decreases fuel, 1int,
{
    proof {
        lemma_exprs_view(args@);
    }
    if args.len() != 2 {
        let e = Error::new(
            ErrKind::InvalidArguments,
            "(fetch-entry ...) requires exactly 2 arguments".to_owned(),
        );
        proof {
            lemma_fresh_matches(e, ErrKind::InvalidArguments, msg_fetch_arity());
        }
        return Err(enrich(e, &env.call_stack));
    }
    let map_name = match &args[0] {
        SymbolicExpression::Atom(name) => name,
        _ => {
            let e = Error::new(
                ErrKind::InvalidArguments,
                "First argument in data functions must be the map name".to_owned(),
            );
            proof {
                assert(!(expr_view(args@[0]) is Atom));
                lemma_fresh_matches(e, ErrKind::InvalidArguments, msg_map_name());
            }
            return Err(enrich(e, &env.call_stack));
        },
    };
    proof {
        assert(expr_view(args@[0]) == ExprModel::Atom(map_name@));
    }
    let key = match eval_expr(&args[1], env, context, fuel) {
        Ok(v) => v,
        Err(e) => {
            return Err(enrich(e, &env.call_stack));
        },
    };
    match env.global_context.database.fetch_entry(&env.contract_context.name, map_name, &key) {
        Ok(v) => Ok(v),
        Err(e) => {
            proof {
                lemma_fresh_matches(e, ErrKind::UnknownMap, msg_unknown_map());
            }
            Err(enrich(e, &env.call_stack))
        },
    }
}

/// The storage set form: `(set-entry! map-name key value)`.
pub fn set_form(
    args: &[SymbolicExpression],
    env: &mut Environment,
    context: &LocalContext,
    fuel: u64,
) -> (r: Result<Value, Error>)
    requires
        old(env).wf(),
    ensures
        set_post(args@, *context, *old(env), *final(env), r),
        mirrors(
            r,
            *final(env),
            spec_set(exprs_view(args@), ctx_view(context.bindings@), env_model(*old(env)), fuel),
        ),
    decreases fuel, 1int,
{
    proof {
        lemma_exprs_view(args@);
    }
    if args.len() != 3 {
        let e = Error::new(
            ErrKind::InvalidArguments,
            "(set-entry! ...) requires exactly 3 arguments".to_owned(),
        );
        proof {
            lemma_fresh_matches(e, ErrKind::InvalidArguments, msg_set_arity());
        }
        return Err(enrich(e, &env.call_stack));
    }
    let map_name = match &args[0] {
        SymbolicExpression::Atom(name) => name,
        _ => {
            let e = Error::new(
                ErrKind::InvalidArguments,
                "First argument in data functions must be the map name".to_owned(),
            );
            proof {
                assert(!(expr_view(args@[0]) is Atom));
                lemma_fresh_matches(e, ErrKind::InvalidArguments, msg_map_name());
            }
            return Err(enrich(e, &env.call_stack));
        },
    };
    proof {
        assert(expr_view(args@[0]) == ExprModel::Atom(map_name@));
    }
    let key = match eval_expr(&args[1], env, context, fuel) {
        Ok(v) => v,
        Err(e) => {
            return Err(enrich(e, &env.call_stack));
        },
    };
    let value = match eval_expr(&args[2], env, context, fuel) {
        Ok(v) => v,
        Err(e) => {
            return Err(enrich(e, &env.call_stack));
        },
    };
    match env.global_context.database.set_entry(&env.contract_context.name, map_name, key, value) {
        Ok(v) => Ok(v),
        Err(e) => {
            proof {
                lemma_fresh_matches(e, ErrKind::UnknownMap, msg_unknown_map());
            }
            Err(enrich(e, &env.call_stack))
        },
    }
}

/// The storage insert form: `(insert-entry! map-name key value)`.
pub fn insert_form(
    args: &[SymbolicExpression],
    env: &mut Environment,
    context: &LocalContext,
    fuel: u64,
) -> (r: Result<Value, Error>)
    requires
        old(env).wf(),
    ensures
        insert_post(args@, *context, *old(env), *final(env), r),
        mirrors(
            r,
            *final(env),
            spec_insert(exprs_view(args@), ctx_view(context.bindings@), env_model(*old(env)), fuel),
        ),
    decreases fuel, 1int,
{
    proof {
        lemma_exprs_view(args@);
    }
    if args.len() != 3 {
        let e = Error::new(
            ErrKind::InvalidArguments,
            "(insert-entry! ...) requires exactly 3 arguments".to_owned(),
        );
        proof {
            lemma_fresh_matches(e, ErrKind::InvalidArguments, msg_insert_arity());
        }
        return Err(enrich(e, &env.call_stack));
    }
    let map_name = match &args[0] {
        SymbolicExpression::Atom(name) => name,
        _ => {
            let e = Error::new(
                ErrKind::InvalidArguments,
                "First argument in data functions must be the map name".to_owned(),
            );
            proof {
                assert(!(expr_view(args@[0]) is Atom));
                lemma_fresh_matches(e, ErrKind::InvalidArguments, msg_map_name());
            }
            return Err(enrich(e, &env.call_stack));
        },
    };
    proof {
        assert(expr_view(args@[0]) == ExprModel::Atom(map_name@));
    }
    let key = match eval_expr(&args[1], env, context, fuel) {
        Ok(v) => v,
        Err(e) => {
            return Err(enrich(e, &env.call_stack));
        },
    };
    let value = match eval_expr(&args[2], env, context, fuel) {
        Ok(v) => v,
        Err(e) => {
            return Err(enrich(e, &env.call_stack));
        },
    };
    match env.global_context.database.insert_entry(
        &env.contract_context.name,
        map_name,
        key,
        value,
    ) {
        Ok(v) => Ok(v),
        Err(e) => {
            proof {
                lemma_fresh_matches(e, ErrKind::UnknownMap, msg_unknown_map());
            }
            Err(enrich(e, &env.call_stack))
        },
    }
}

/// The storage delete form: `(delete-entry! map-name key)`.
pub fn delete_form(
    args: &[SymbolicExpression],
    env: &mut Environment,
    context: &LocalContext,
    fuel: u64,
) -> (r: Result<Value, Error>)
    requires
        old(env).wf(),
    ensures
        delete_post(args@, *context, *old(env), *final(env), r),
        mirrors(
            r,
            *final(env),
            spec_delete(exprs_view(args@), ctx_view(context.bindings@), env_model(*old(env)), fuel),
        ),
    decreases fuel, 1int,
{
    proof {
        lemma_exprs_view(args@);
    }
    if args.len() != 2 {
        let e = Error::new(
            ErrKind::InvalidArguments,
            "(delete-entry! ...) requires exactly 2 arguments".to_owned(),
        );
        proof {
            lemma_fresh_matches(e, ErrKind::InvalidArguments, msg_delete_arity());
        }
        return Err(enrich(e, &env.call_stack));
    }
    let map_name = match &args[0] {
        SymbolicExpression::Atom(name) => name,
        _ => {
            let e = Error::new(
                ErrKind::InvalidArguments,
                "First argument in data functions must be the map name".to_owned(),
            );
            proof {
                assert(!(expr_view(args@[0]) is Atom));
                lemma_fresh_matches(e, ErrKind::InvalidArguments, msg_map_name());
            }
            return Err(enrich(e, &env.call_stack));
        },
    };
    proof {
        assert(expr_view(args@[0]) == ExprModel::Atom(map_name@));
    }
    let key = match eval_expr(&args[1], env, context, fuel) {
        Ok(v) => v,
        Err(e) => {
            return Err(enrich(e, &env.call_stack));
        },
    };
    match env.global_context.database.delete_entry(&env.contract_context.name, map_name, &key) {
        Ok(v) => Ok(v),
        Err(e) => {
            proof {
                lemma_fresh_matches(e, ErrKind::UnknownMap, msg_unknown_map());
            }
            Err(enrich(e, &env.call_stack))
        },
    }
}

/// The cross-contract call form: `(contract-call contract function args...)`.
pub fn contract_call_form(
    args: &[SymbolicExpression],
    env: &mut Environment,
    context: &LocalContext,
    fuel: u64,
) -> (r: Result<Value, Error>)
    requires
        old(env).wf(),
    ensures
        contract_call_post(args@, *context, *old(env), *final(env), r, fuel),
        mirrors(
            r,
            *final(env),
            spec_contract_call(
                exprs_view(args@),
                ctx_view(context.bindings@),
                env_model(*old(env)),
                fuel,
            ),
        ),
    decreases fuel, 1int,
{
    proof {
        lemma_exprs_view(args@);
    }
    if args.len() < 2 {
        let e = Error::new(
            ErrKind::InvalidArguments,
            "(contract-call ...) requires at least 2 arguments: the contract name and the public function name".to_owned(),
        );
        proof {
            lemma_fresh_matches(e, ErrKind::InvalidArguments, msg_cc_arity());
        }
        return Err(enrich(e, &env.call_stack));
    }
    if env.sender.is_none() {
        let e = Error::new(
            ErrKind::InvalidArguments,
            "No sender in current context. Did you attempt to (contract-call ...) from a non-contract aware environment?".to_owned(),
        );
        proof {
            lemma_fresh_matches(e, ErrKind::InvalidArguments, msg_no_sender());
        }
        return Err(enrich(e, &env.call_stack));
    }
    let contract_name = match &args[0] {
        SymbolicExpression::Atom(name) => name,
        _ => {
            let e = Error::new(
                ErrKind::InvalidArguments,
                "First argument to (contract-call ...) must be contract name".to_owned(),
            );
            proof {
                assert(!(expr_view(args@[0]) is Atom));
                lemma_fresh_matches(e, ErrKind::InvalidArguments, msg_cc_contract_name());
            }
            return Err(enrich(e, &env.call_stack));
        },
    };
    proof {
        assert(expr_view(args@[0]) == ExprModel::Atom(contract_name@));
    }
    let function_name = match &args[1] {
        SymbolicExpression::Atom(name) => name,
        _ => {
            let e = Error::new(
                ErrKind::InvalidArguments,
                "Second argument to (contract-call ...) must be function name".to_owned(),
            );
            proof {
                assert(!(expr_view(args@[1]) is Atom));
                lemma_fresh_matches(e, ErrKind::InvalidArguments, msg_cc_function_name());
            }
            return Err(enrich(e, &env.call_stack));
        },
    };
    proof {
        assert(expr_view(args@[1]) == ExprModel::Atom(function_name@));
    }
    if fuel == 0 {
        let e = Error::new(
            ErrKind::MaxStackDepthReached,
            "evaluation depth budget exhausted".to_owned(),
        );
        proof {
            lemma_fresh_matches(e, ErrKind::MaxStackDepthReached, msg_depth());
        }
        return Err(e);
    }
    let ghost pre = *old(env);
    let ghost margs = exprs_view(args@);
    let ghost mctx = ctx_view(context.bindings@);
    let ghost mut vals: Seq<Value> = Seq::empty();
    let mut rest_args: Vec<SymbolicExpression> = Vec::new();
    let mut i: usize = 2;
    proof {
        let full = spec_eval_args(margs.subrange(2, margs.len() as int), mctx, env_model(pre), fuel);
        if full.0 is Ok {
            assert(vals + full.0->Ok_0 =~= full.0->Ok_0);
        }
        assert(exprs_view(rest_args@) =~= vals.map_values(|v: Value| ExprModel::AtomValue(v)));
    }
    #[verifier::loop_isolation(false)]
    while i < args.len()
        invariant
            2 <= i <= args@.len(),
            rest_args@.len() == i - 2,
            old(env).wf(),
            env.wf(),
            pre == *old(env),
            env.sender == pre.sender,
            env.contract_context == pre.contract_context,
            env.global_context.contracts == pre.global_context.contracts,
            env.call_limit == pre.call_limit,
            env.global_context.database.declared() == pre.global_context.database.declared(),
            env.call_stack.frames@ == pre.call_stack.frames@,
            (forall|j: int| 2 <= j < i ==> simple_value(args@[j], *context) is Some) ==> *env
                == pre,
            vals.len() == i - 2,
            exprs_view(rest_args@) == vals.map_values(|v: Value| ExprModel::AtomValue(v)),
            ({
                let full = spec_eval_args(
                    margs.subrange(2, margs.len() as int),
                    mctx,
                    env_model(pre),
                    fuel,
                );
                let part = spec_eval_args(
                    margs.subrange(i as int, margs.len() as int),
                    mctx,
                    env_model(*env),
                    fuel,
                );
                match part.0 {
                    Ok(vs) => full == (Ok::<Seq<Value>, ErrModel>(vals + vs), part.1),
                    Err(pe) => full == (Err::<Seq<Value>, ErrModel>(pe), part.1),
                }
            }),
        decreases args@.len() - i,
    {
        proof {
            assert(margs.subrange(i as int, margs.len() as int)[0] == margs[i as int]);
            assert(margs[i as int] == expr_view(args@[i as int]));
            assert(margs.subrange(i as int, margs.len() as int).drop_first() =~= margs.subrange(
                i as int + 1,
                margs.len() as int,
            ));
        }
        let ghost rest0 = rest_args@;
        match eval_expr(&args[i], env, context, fuel) {
            Ok(v) => {
                proof {
                    let part_next = spec_eval_args(
                        margs.subrange(i as int + 1, margs.len() as int),
                        mctx,
                        env_model(*env),
                        fuel,
                    );
                    assert(vals.push(v) =~= vals + seq![v]);
                    if part_next.0 is Ok {
                        assert((vals + seq![v]) + part_next.0->Ok_0 =~= vals + (seq![v]
                            + part_next.0->Ok_0));
                    }
                }
                rest_args.push(SymbolicExpression::atom_value(v));
                proof {
                    lemma_exprs_view(rest0);
                    lemma_exprs_view(rest_args@);
                    let vals0 = vals;
                    vals = vals.push(v);
                    assert forall|j: int| 0 <= j < rest_args@.len() implies exprs_view(
                        rest_args@,
                    )[j] == vals.map_values(|v2: Value| ExprModel::AtomValue(v2))[j] by {
                        if j < rest0.len() {
                            assert(rest_args@[j] == rest0[j]);
                            assert(exprs_view(rest0)[j] == vals0.map_values(
                                |v2: Value| ExprModel::AtomValue(v2),
                            )[j]);
                        } else {
                            assert(rest_args@[j] matches SymbolicExpression::AtomValue(v3)
                                && v3 == v);
                        }
                    }
                    assert(exprs_view(rest_args@) =~= vals.map_values(
                        |v2: Value| ExprModel::AtomValue(v2),
                    ));
                }
            },
            Err(e) => {
                return Err(enrich(e, &env.call_stack));
            },
        }
        i = i + 1;
    }
    proof {
        assert(margs.subrange(i as int, margs.len() as int).len() == 0);
        assert(vals + Seq::<Value>::empty() =~= vals);
    }
    match execute_contract_fueled(env, contract_name, function_name, &rest_args, fuel - 1) {
        Ok(v) => Ok(v),
        Err(e) => Err(enrich(e, &env.call_stack)),
    }
}

/// Runs a public function of a deployed contract: resolves the target,
/// checks the argument count against its parameters, enters a new call-stack
/// frame, rebinds the execution identity to the callee, evaluates the
/// pre-evaluated argument nodes in a fresh lexical context, binds them to
/// the parameters, and evaluates the body.  On success the frame is popped
/// and the identity restored; on failure the frame is retained for the
/// trace and only the identity is restored.
#[verifier::rlimit(100)]
fn execute_contract_fueled(
    env: &mut Environment,
    contract_name: &String,
    function_name: &String,
    args: &[SymbolicExpression],
    fuel: u64,
) -> (r: Result<Value, Error>)
    requires
        old(env).wf(),
    ensures
        execute_post(contract_name@, function_name@, args@.len() as int, *old(env), *final(env), r),
        mirrors(
            r,
            *final(env),
            spec_execute(
                contract_name@,
                function_name@,
                exprs_view(args@),
                env_model(*old(env)),
                fuel,
            ),
        ),
    decreases fuel, 2int,
{
    let ghost pre = *old(env);
    proof {
        lemma_exprs_view(args@);
        lemma_find_contract_view(pre.global_context.contracts@, contract_name@);
    }
    let ci = match lookup_contract(&env.global_context.contracts, contract_name) {
        Some(ci) => ci,
        None => {
            let e = Error::new(
                ErrKind::UnknownContract,
                "attempted to call an undeployed contract".to_owned(),
            );
            proof {
                lemma_fresh_matches(e, ErrKind::UnknownContract, msg_unknown_contract());
            }
            return Err(e);
        },
    };
    proof {
        lemma_find_function_view(
            pre.global_context.contracts@[ci as int].functions@,
            function_name@,
        );
    }
    let fi = match lookup_function(&env.global_context.contracts[ci].functions, function_name) {
        Some(fi) => fi,
        None => {
            let e = Error::new(
                ErrKind::UnknownFunction,
                "attempted to call a function the contract does not expose".to_owned(),
            );
            proof {
                lemma_fresh_matches(e, ErrKind::UnknownFunction, msg_unknown_function_target());
            }
            return Err(e);
        },
    };
    let ghost forig = pre.global_context.contracts@[ci as int].functions@[fi as int];
    let ghost fm = fn_view(forig);
    let n_params = env.global_context.contracts[ci].functions[fi].params.len();
    proof {
        assert(fm.params.len() == forig.params@.len());
    }
    if n_params != args.len() {
        let e = Error::new(
            ErrKind::InvalidArguments,
            "called function expects a different number of arguments".to_owned(),
        );
        proof {
            lemma_fresh_matches(e, ErrKind::InvalidArguments, msg_param_count());
        }
        return Err(e);
    }
    let body = env.global_context.contracts[ci].functions[fi].body.clone();
    proof {
        assert(expr_view(body) == fm.body);
    }
    // Enter the callee: new stack frame naming it, callee identity.
    env.call_stack.push(
        StackFrame { contract: contract_name.clone(), function: function_name.clone() },
    );
    let saved_identity = env.contract_context.name.clone();
    env.contract_context.name = contract_name.clone();
    let ghost mid = *env;
    let ghost entered = EnvModel {
        cur_contract: contract_name@,
        frames: env_model(pre).frames.push((contract_name@, function_name@)),
        ..env_model(pre)
    };
    proof {
        assert(pre.call_stack.frames@.is_prefix_of(mid.call_stack.frames@)) by {
            assert(pre.call_stack.frames@ =~= mid.call_stack.frames@.subrange(
                0,
                pre.call_stack.frames@.len() as int,
            ));
        }
        assert(frames_view(mid.call_stack.frames@) =~= frames_view(pre.call_stack.frames@).push(
            (contract_name@, function_name@),
        ));
        assert(env_model(mid) == entered);
    }
    // Reduce the pre-evaluated argument nodes in a fresh lexical context and
    // bind them to the parameters.
    let empty_ctx = LocalContext::new();
    let mut callee_ctx = LocalContext::new();
    let ghost margs = exprs_view(args@);
    let ghost mctx0 = Seq::<(Seq<char>, Value)>::empty();
    let ghost mut vals: Seq<Value> = Seq::empty();
    proof {
        assert(ctx_view(empty_ctx.bindings@) =~= mctx0);
        let full = spec_eval_args(margs, mctx0, entered, fuel);
        if full.0 is Ok {
            assert(vals + full.0->Ok_0 =~= full.0->Ok_0);
        }
        assert(margs.subrange(0, margs.len() as int) =~= margs);
    }
    let mut i: usize = 0;
    #[verifier::loop_isolation(false)]
    while i < args.len()
        invariant
            0 <= i <= args@.len(),
            args@.len() == fm.params.len(),
            env.wf(),
            env.sender == mid.sender,
            env.contract_context == mid.contract_context,
            env.global_context.contracts == mid.global_context.contracts,
            env.call_limit == mid.call_limit,
            env.global_context.database.declared() == mid.global_context.database.declared(),
            env.call_stack.frames@ == mid.call_stack.frames@,
            vals.len() == i,
            callee_ctx.bindings@.len() == i,
            forall|j: int| 0 <= j < i ==> #[trigger] callee_ctx.bindings@[j].0@ == fm.params[j],
            forall|j: int| 0 <= j < i ==> #[trigger] callee_ctx.bindings@[j].1 == vals[j],
            ({
                let full = spec_eval_args(margs, mctx0, entered, fuel);
                let part = spec_eval_args(
                    margs.subrange(i as int, margs.len() as int),
                    mctx0,
                    env_model(*env),
                    fuel,
                );
                match part.0 {
                    Ok(vs) => full == (Ok::<Seq<Value>, ErrModel>(vals + vs), part.1),
                    Err(pe) => full == (Err::<Seq<Value>, ErrModel>(pe), part.1),
                }
            }),
        decreases args@.len() - i,
    {
        proof {
            assert(margs.subrange(i as int, margs.len() as int)[0] == margs[i as int]);
            assert(margs[i as int] == expr_view(args@[i as int]));
            assert(margs.subrange(i as int, margs.len() as int).drop_first() =~= margs.subrange(
                i as int + 1,
                margs.len() as int,
            ));
        }
        match eval_expr(&args[i], env, &empty_ctx, fuel) {
            Ok(v) => {
                proof {
                    let part_next = spec_eval_args(
                        margs.subrange(i as int + 1, margs.len() as int),
                        mctx0,
                        env_model(*env),
                        fuel,
                    );
                    assert(vals.push(v) =~= vals + seq![v]);
                    if part_next.0 is Ok {
                        assert((vals + seq![v]) + part_next.0->Ok_0 =~= vals + (seq![v]
                            + part_next.0->Ok_0));
                    }
                }
                let ghost bindings0 = callee_ctx.bindings@;
                let ghost vals0 = vals;
                callee_ctx.bindings.push(
                    (env.global_context.contracts[ci].functions[fi].params[i].clone(), v),
                );
                proof {
                    vals = vals.push(v);
                    assert(forig.params@[i as int]@ == fm.params[i as int]);
                    assert(callee_ctx.bindings@[i as int].0@ == fm.params[i as int]);
                    assert(callee_ctx.bindings@[i as int].1 == vals[i as int]);
                    assert forall|j: int|
                        0 <= j < i + 1 implies #[trigger] callee_ctx.bindings@[j].0@
                        == fm.params[j] by {
                        if j < i {
                            assert(callee_ctx.bindings@[j] == bindings0[j]);
                            assert(bindings0[j].0@ == fm.params[j]);
                        }
                    }
                    assert forall|j: int|
                        0 <= j < i + 1 implies #[trigger] callee_ctx.bindings@[j].1 == vals[j] by {
                        if j < i {
                            assert(callee_ctx.bindings@[j] == bindings0[j]);
                            assert(vals[j] == vals0[j]);
                            assert(bindings0[j].1 == vals0[j]);
                        }
                    }
                }
            },
            Err(e) => {
                let ghost failed = *env;
                env.contract_context.name = saved_identity;
                proof {
                    lemma_prefix_frames(pre.call_stack.frames@, mid.call_stack.frames@,
                        failed.call_stack.frames@);
                    assert(env_model(*env) == (EnvModel {
                        cur_contract: env_model(pre).cur_contract,
                        ..env_model(failed)
                    }));
                }
                return Err(e);
            },
        }
        i = i + 1;
    }
    proof {
        assert(margs.subrange(i as int, margs.len() as int).len() == 0);
        assert(vals + Seq::<Value>::empty() =~= vals);
        assert forall|j: int| 0 <= j < callee_ctx.bindings@.len() implies ctx_view(
            callee_ctx.bindings@,
        )[j] == (fm.params[j], vals[j]) by {
            assert(ctx_view(callee_ctx.bindings@)[j] == (
                callee_ctx.bindings@[j].0@,
                callee_ctx.bindings@[j].1,
            ));
        }
        assert(ctx_view(callee_ctx.bindings@) =~= Seq::new(
            fm.params.len(),
            |j: int| (fm.params[j], vals[j]),
        ));
    }
    // Evaluate the body under the callee's identity.
    match eval_expr(&body, env, &callee_ctx, fuel) {
        Ok(v) => {
            let ghost before_pop = *env;
            env.call_stack.pop();
            env.contract_context.name = saved_identity;
            proof {
                assert(env.call_stack.frames@ =~= pre.call_stack.frames@);
                assert(pre.call_stack.frames@.is_prefix_of(env.call_stack.frames@)) by {
                    assert(pre.call_stack.frames@ =~= env.call_stack.frames@.subrange(
                        0,
                        pre.call_stack.frames@.len() as int,
                    ));
                }
                assert(frames_view(env.call_stack.frames@) =~= frames_view(
                    before_pop.call_stack.frames@,
                ).drop_last());
                assert(env_model(*env) == (EnvModel {
                    cur_contract: env_model(pre).cur_contract,
                    frames: env_model(before_pop).frames.drop_last(),
                    ..env_model(before_pop)
                }));
            }
            Ok(v)
        },
        Err(e) => {
            let ghost failed = *env;
            env.contract_context.name = saved_identity;
            proof {
                lemma_prefix_frames(pre.call_stack.frames@, mid.call_stack.frames@,
                    failed.call_stack.frames@);
                assert(env_model(*env) == (EnvModel {
                    cur_contract: env_model(pre).cur_contract,
                    ..env_model(failed)
                }));
            }
            Err(e)
        },
    }
}

/// A prefix of a prefix is a prefix.
proof fn lemma_prefix_frames(a: Seq<StackFrame>, b: Seq<StackFrame>, c: Seq<StackFrame>)
    requires
        a.is_prefix_of(b),
        b.is_prefix_of(c),
    ensures
        a.is_prefix_of(c),
{
    assert(a =~= c.subrange(0, a.len() as int)) by {
        assert forall|i: int| 0 <= i < a.len() implies a[i] == c.subrange(0, a.len() as int)[i] by {
            assert(a[i] == b.subrange(0, a.len() as int)[i]);
            assert(b[i] == c.subrange(0, b.len() as int)[i]);
        }
    }
}

impl Environment {
    /// Runs a public function of a deployed contract with pre-evaluated
    /// argument nodes, under the depth budget this environment was granted.
    pub fn execute_contract(
        &mut self,
        contract_name: &String,
        function_name: &String,
        args: &[SymbolicExpression],
    ) -> (r: Result<Value, Error>)
        requires
            old(self).wf(),
        ensures
            execute_post(
                contract_name@,
                function_name@,
                args@.len() as int,
                *old(self),
                *final(self),
                r,
            ),
            mirrors(
                r,
                *final(self),
                spec_execute(
                    contract_name@,
                    function_name@,
                    exprs_view(args@),
                    env_model(*old(self)),
                    old(self).call_limit,
                ),
            ),
    {
        let fuel = self.call_limit;
        execute_contract_fueled(self, contract_name, function_name, args, fuel)
    }
}

} // verus!
