//! The mathematical semantics of the boundary layer: a fueled, recursive
//! evaluator over abstract models of expressions, contracts and the
//! environment.  Every executable evaluator function mirrors it exactly, so
//! a well-formed call's whole outcome — result, store, call stack, trace —
//! is pinned by these definitions.

use vstd::prelude::*;
use crate::types::Value;
use crate::errors::{kind_carries_trace, ErrKind, Error, StackFrame};
use crate::database::{fetch_result, msg_unknown_map, StoreKey};
use crate::contexts::{find_contract, find_function, lookup_binding, Contract, ContractFunction, Environment};
use crate::representations::SymbolicExpression;

verus! {

// ---------------------------------------------------------------------------
// Error messages
// ---------------------------------------------------------------------------

pub open spec fn msg_fetch_arity() -> Seq<char> {
    "(fetch-entry ...) requires exactly 2 arguments"@
}

pub open spec fn msg_set_arity() -> Seq<char> {
    "(set-entry! ...) requires exactly 3 arguments"@
}

pub open spec fn msg_insert_arity() -> Seq<char> {
    "(insert-entry! ...) requires exactly 3 arguments"@
}

pub open spec fn msg_delete_arity() -> Seq<char> {
    "(delete-entry! ...) requires exactly 2 arguments"@
}

pub open spec fn msg_map_name() -> Seq<char> {
    "First argument in data functions must be the map name"@
}

pub open spec fn msg_cc_arity() -> Seq<char> {
    "(contract-call ...) requires at least 2 arguments: the contract name and the public function name"@
}

pub open spec fn msg_no_sender() -> Seq<char> {
    "No sender in current context. Did you attempt to (contract-call ...) from a non-contract aware environment?"@
}

pub open spec fn msg_cc_contract_name() -> Seq<char> {
    "First argument to (contract-call ...) must be contract name"@
}

pub open spec fn msg_cc_function_name() -> Seq<char> {
    "Second argument to (contract-call ...) must be function name"@
}

pub open spec fn msg_undefined_variable() -> Seq<char> {
    "variable not bound in the current context"@
}

pub open spec fn msg_undefined_function() -> Seq<char> {
    "attempted to apply an unknown function"@
}

pub open spec fn msg_empty_application() -> Seq<char> {
    "attempted to evaluate an empty expression"@
}

pub open spec fn msg_head_not_name() -> Seq<char> {
    "expression head must be a function name"@
}

pub open spec fn msg_depth() -> Seq<char> {
    "evaluation depth budget exhausted"@
}

pub open spec fn msg_unknown_contract() -> Seq<char> {
    "attempted to call an undeployed contract"@
}

pub open spec fn msg_unknown_function_target() -> Seq<char> {
    "attempted to call a function the contract does not expose"@
}

pub open spec fn msg_param_count() -> Seq<char> {
    "called function expects a different number of arguments"@
}

// ---------------------------------------------------------------------------
// Abstract models
// ---------------------------------------------------------------------------

/// The abstract form of a symbolic expression: identifiers as character
/// sequences, values as themselves.
pub enum ExprModel {
    Atom(Seq<char>),
    AtomValue(Value),
    List(Seq<ExprModel>),
}

/// A call-stack frame in the abstract: (contract identity, function name).
pub type FrameModel = (Seq<char>, Seq<char>);

/// A public contract function in the abstract.
pub struct FnModel {
    pub name: Seq<char>,
    pub params: Seq<Seq<char>>,
    pub body: ExprModel,
}

/// A deployed contract in the abstract.
pub struct ContractModel {
    pub name: Seq<char>,
    pub functions: Seq<FnModel>,
}

/// An error in the abstract: kind, message, and the optional trace.
pub struct ErrModel {
    pub kind: ErrKind,
    pub message: Seq<char>,
    pub trace: Option<Seq<FrameModel>>,
}

/// The abstract state of the environment: the store's contents and declared
/// namespaces, the deployed contracts, the executing contract's identity,
/// the call-stack frames, and whether a sender is present.
pub struct EnvModel {
    pub contents: Map<StoreKey, Value>,
    pub declared: Set<(Seq<char>, Seq<char>)>,
    pub contracts: Seq<ContractModel>,
    pub cur_contract: Seq<char>,
    pub frames: Seq<FrameModel>,
    pub sender_some: bool,
}

/// One evaluation step's outcome: the result and the state it leaves.
pub type StepResult = (Result<Value, ErrModel>, EnvModel);

/// One argument-sequence evaluation's outcome.
pub type ArgsResult = (Result<Seq<Value>, ErrModel>, EnvModel);

// ---------------------------------------------------------------------------
// Views of the executable data
// ---------------------------------------------------------------------------

/// The abstract form of a symbolic expression.
pub open spec fn expr_view(e: SymbolicExpression) -> ExprModel
    decreases e, 0int,
{
    match e {
        SymbolicExpression::Atom(s) => ExprModel::Atom(s@),
        SymbolicExpression::AtomValue(v) => ExprModel::AtomValue(v),
        SymbolicExpression::List(es) => {
            proof {
                assert(decreases_to!(e => e->List_0));
                assert(decreases_to!(e->List_0 => e->List_0@));
                assert(es@ == e->List_0@);
                assert(decreases_to!(e => es@));
            }
            ExprModel::List(exprs_view(es@))
        },
    }
}

/// The abstract form of a sequence of expressions.
pub open spec fn exprs_view(es: Seq<SymbolicExpression>) -> Seq<ExprModel>
    decreases es, 1int,
{
    if es.len() == 0 {
        Seq::<ExprModel>::empty()
    } else {
        proof {
            vstd::seq::axiom_seq_subrange_decreases(es, 0, es.len() - 1);
            assert(decreases_to!(es => es[es.len() - 1]));
        }
        exprs_view(es.drop_last()).push(expr_view(es.last()))
    }
}

/// `exprs_view` is the pointwise abstraction.
pub proof fn lemma_exprs_view(es: Seq<SymbolicExpression>)
    ensures
        exprs_view(es).len() == es.len(),
        forall|i: int| 0 <= i < es.len() ==> exprs_view(es)[i] == expr_view(es[i]),
    decreases es.len(),
{
    if es.len() > 0 {
        lemma_exprs_view(es.drop_last());
    }
}

pub open spec fn frame_view(f: StackFrame) -> FrameModel {
    (f.contract@, f.function@)
}

pub open spec fn frames_view(s: Seq<StackFrame>) -> Seq<FrameModel> {
    s.map_values(|f: StackFrame| frame_view(f))
}

/// The abstract form of a lexical context's bindings.
pub open spec fn ctx_view(b: Seq<(String, Value)>) -> Seq<(Seq<char>, Value)> {
    b.map_values(|p: (String, Value)| (p.0@, p.1))
}

pub open spec fn fn_view(f: ContractFunction) -> FnModel {
    FnModel {
        name: f.name@,
        params: f.params@.map_values(|p: String| p@),
        body: expr_view(f.body),
    }
}

pub open spec fn contract_view(c: Contract) -> ContractModel {
    ContractModel { name: c.name@, functions: c.functions@.map_values(|f: ContractFunction| fn_view(f)) }
}

pub open spec fn contracts_view(s: Seq<Contract>) -> Seq<ContractModel> {
    s.map_values(|c: Contract| contract_view(c))
}

/// The abstract state an environment is in.
pub open spec fn env_model(env: Environment) -> EnvModel {
    EnvModel {
        contents: env.global_context.database.contents(),
        declared: env.global_context.database.declared(),
        contracts: contracts_view(env.global_context.contracts@),
        cur_contract: env.contract_context.name@,
        frames: frames_view(env.call_stack.frames@),
        sender_some: env.sender is Some,
    }
}

/// The executable error realises the abstract one.
pub open spec fn err_matches(e: Error, m: ErrModel) -> bool {
    &&& e.kind == m.kind
    &&& e.message@ == m.message
    &&& match (e.trace, m.trace) {
        (Some(t), Some(tm)) => frames_view(t@) == tm,
        (None, None) => true,
        _ => false,
    }
}

/// The executable result realises the abstract one.
pub open spec fn res_matches(r: Result<Value, Error>, m: Result<Value, ErrModel>) -> bool {
    match (r, m) {
        (Ok(v), Ok(vm)) => v == vm,
        (Err(e), Err(em)) => err_matches(e, em),
        _ => false,
    }
}

/// An evaluator function mirrors its abstract step: the result realises the
/// step's result and the environment is left in the step's state.
pub open spec fn mirrors(r: Result<Value, Error>, post: Environment, step: StepResult) -> bool {
    res_matches(r, step.0) && env_model(post) == step.1
}

// ---------------------------------------------------------------------------
// Abstract errors
// ---------------------------------------------------------------------------

/// A freshly raised abstract error.
pub open spec fn fresh_model(kind: ErrKind, message: Seq<char>) -> ErrModel {
    ErrModel {
        kind,
        message,
        trace: if kind_carries_trace(kind) {
            Some(Seq::<FrameModel>::empty())
        } else {
            None
        },
    }
}

/// Abstract error enrichment: a still-empty trace is filled with the given
/// rendered call stack; anything else passes unchanged.
pub open spec fn enrich_model(e: ErrModel, frames: Seq<FrameModel>) -> ErrModel {
    match e.trace {
        Some(t) => if t.len() == 0 {
            ErrModel { kind: e.kind, message: e.message, trace: Some(frames) }
        } else {
            e
        },
        None => e,
    }
}

/// A freshly created executable error realises the fresh abstract error.
pub proof fn lemma_fresh_matches(e: Error, kind: ErrKind, msg: Seq<char>)
    requires
        e.kind == kind,
        e.message@ == msg,
        kind_carries_trace(kind) ==> (e.trace matches Some(t) && t@.len() == 0),
        !kind_carries_trace(kind) ==> e.trace is None,
    ensures
        err_matches(e, fresh_model(kind, msg)),
{
    if kind_carries_trace(kind) {
        assert(frames_view(e.trace->0@) =~= Seq::<FrameModel>::empty());
    }
}

/// Executable enrichment realises abstract enrichment: if `pre` realises
/// `em` and `post` is `pre` enriched with the rendered `stack`, then `post`
/// realises `em` enriched with the abstract stack.
pub proof fn lemma_enrich_matches(pre: Error, post: Error, em: ErrModel, stack: Seq<StackFrame>)
    requires
        err_matches(pre, em),
        post.kind == pre.kind,
        post.message == pre.message,
        pre.trace is None ==> post.trace == pre.trace,
        (pre.trace matches Some(t) && t@.len() == 0) ==> (post.trace matches Some(t2) && t2@
            == stack),
        (pre.trace matches Some(t) && t@.len() > 0) ==> post.trace == pre.trace,
    ensures
        err_matches(post, enrich_model(em, frames_view(stack))),
{
    match pre.trace {
        Some(t) => {
            let tm = em.trace->0;
            assert(frames_view(t@).len() == t@.len());
            if t@.len() == 0 {
                assert(tm.len() == 0);
            } else {
                assert(tm.len() > 0);
            }
        },
        None => {},
    }
}

// ---------------------------------------------------------------------------
// Abstract lookups
// ---------------------------------------------------------------------------

/// The value bound to `name`, earlier bindings shadowing later ones.
pub open spec fn lookup_model(b: Seq<(Seq<char>, Value)>, name: Seq<char>) -> Option<Value>
    decreases b.len(),
{
    if b.len() == 0 {
        None
    } else if b[0].0 == name {
        Some(b[0].1)
    } else {
        lookup_model(b.drop_first(), name)
    }
}

/// The first deployed contract of the given name.
pub open spec fn find_contract_model(s: Seq<ContractModel>, name: Seq<char>) -> Option<
    ContractModel,
>
    decreases s.len(),
{
    if s.len() == 0 {
        None
    } else if s[0].name == name {
        Some(s[0])
    } else {
        find_contract_model(s.drop_first(), name)
    }
}

/// The first public function of the given name.
pub open spec fn find_function_model(s: Seq<FnModel>, name: Seq<char>) -> Option<FnModel>
    decreases s.len(),
{
    if s.len() == 0 {
        None
    } else if s[0].name == name {
        Some(s[0])
    } else {
        find_function_model(s.drop_first(), name)
    }
}

/// Looking a name up in the abstract bindings agrees with looking it up in
/// the executable ones.
pub proof fn lemma_lookup_view(b: Seq<(String, Value)>, name: Seq<char>)
    ensures
        lookup_model(ctx_view(b), name) == lookup_binding(b, name),
    decreases b.len(),
{
    if b.len() > 0 {
        lemma_lookup_view(b.drop_first(), name);
        assert(ctx_view(b).len() == b.len());
        assert(ctx_view(b)[0] == (b[0].0@, b[0].1));
        assert(ctx_view(b).drop_first() =~= ctx_view(b.drop_first()));
    }
}

/// Resolving a contract in the abstract registry agrees with resolving it in
/// the executable one.
pub proof fn lemma_find_contract_view(s: Seq<Contract>, name: Seq<char>)
    ensures
        match find_contract(s, name) {
            None => find_contract_model(contracts_view(s), name) is None,
            Some(c) => find_contract_model(contracts_view(s), name) == Some(contract_view(c)),
        },
    decreases s.len(),
{
    if s.len() > 0 {
        lemma_find_contract_view(s.drop_first(), name);
        assert(contracts_view(s).len() == s.len());
        assert(contracts_view(s)[0] == contract_view(s[0]));
        assert(contracts_view(s).drop_first() =~= contracts_view(s.drop_first()));
    }
}

/// Resolving a function in the abstract contract agrees with resolving it in
/// the executable one.
pub proof fn lemma_find_function_view(s: Seq<ContractFunction>, name: Seq<char>)
    ensures
        match find_function(s, name) {
            None => find_function_model(s.map_values(|f: ContractFunction| fn_view(f)), name)
                is None,
            Some(f) => find_function_model(s.map_values(|f: ContractFunction| fn_view(f)), name)
                == Some(fn_view(f)),
        },
    decreases s.len(),
{
    if s.len() > 0 {
        lemma_find_function_view(s.drop_first(), name);
        let m = s.map_values(|f: ContractFunction| fn_view(f));
        assert(m.len() == s.len());
        assert(m[0] == fn_view(s[0]));
        assert(m.drop_first() =~= s.drop_first().map_values(|f: ContractFunction| fn_view(f)));
    }
}

/// The identifier an atom carries (empty for non-atoms; only read under a
/// guard).
pub open spec fn matom(e: ExprModel) -> Seq<char> {
    match e {
        ExprModel::Atom(n) => n,
        _ => Seq::empty(),
    }
}

// ---------------------------------------------------------------------------
// The abstract evaluator
// ---------------------------------------------------------------------------

/// Reduces one abstract expression: a pre-evaluated node is its value; an
/// identifier is looked up; an application spends one unit of budget and
/// dispatches on its head symbol.
pub open spec fn spec_eval(
    e: ExprModel,
    ctx: Seq<(Seq<char>, Value)>,
    s: EnvModel,
    fuel: u64,
) -> StepResult
    decreases fuel, 0int, 0int,
{
    match e {
        ExprModel::AtomValue(v) => (Ok(v), s),
        ExprModel::Atom(n) => match lookup_model(ctx, n) {
            Some(v) => (Ok(v), s),
            None => (
                Err(fresh_model(ErrKind::UndefinedVariable, msg_undefined_variable())),
                s,
            ),
        },
        ExprModel::List(exprs) => {
            if fuel == 0 {
                (Err(fresh_model(ErrKind::MaxStackDepthReached, msg_depth())), s)
            } else if exprs.len() == 0 {
                (Err(fresh_model(ErrKind::InvalidArguments, msg_empty_application())), s)
            } else {
                match exprs[0] {
                    ExprModel::Atom(h) => {
                        let rest = exprs.subrange(1, exprs.len() as int);
                        if h == "fetch-entry"@ {
                            spec_fetch(rest, ctx, s, (fuel - 1) as u64)
                        } else if h == "set-entry!"@ {
                            spec_set(rest, ctx, s, (fuel - 1) as u64)
                        } else if h == "insert-entry!"@ {
                            spec_insert(rest, ctx, s, (fuel - 1) as u64)
                        } else if h == "delete-entry!"@ {
                            spec_delete(rest, ctx, s, (fuel - 1) as u64)
                        } else if h == "contract-call"@ {
                            spec_contract_call(rest, ctx, s, (fuel - 1) as u64)
                        } else {
                            (
                                Err(
                                    fresh_model(
                                        ErrKind::UndefinedFunction,
                                        msg_undefined_function(),
                                    ),
                                ),
                                s,
                            )
                        }
                    },
                    _ => (
                        Err(fresh_model(ErrKind::InvalidArguments, msg_head_not_name())),
                        s,
                    ),
                }
            }
        },
    }
}

/// Reduces argument expressions in strict left-to-right order, threading the
/// state and short-circuiting on the first failure.
pub open spec fn spec_eval_args(
    args: Seq<ExprModel>,
    ctx: Seq<(Seq<char>, Value)>,
    s: EnvModel,
    fuel: u64,
) -> ArgsResult
    decreases fuel, 1int, args.len(),
{
    if args.len() == 0 {
        (Ok(Seq::<Value>::empty()), s)
    } else {
        let first = spec_eval(args[0], ctx, s, fuel);
        match first.0 {
            Err(e) => (Err(e), first.1),
            Ok(v) => {
                let rest = spec_eval_args(args.drop_first(), ctx, first.1, fuel);
                match rest.0 {
                    Ok(vs) => (Ok(seq![v] + vs), rest.1),
                    Err(e) => (Err(e), rest.1),
                }
            },
        }
    }
}

/// The storage fetch form in the abstract.
pub open spec fn spec_fetch(
    args: Seq<ExprModel>,
    ctx: Seq<(Seq<char>, Value)>,
    s: EnvModel,
    fuel: u64,
) -> StepResult
    decreases fuel, 2int, 0int,
{
    if args.len() != 2 {
        (
            Err(enrich_model(fresh_model(ErrKind::InvalidArguments, msg_fetch_arity()), s.frames)),
            s,
        )
    } else if !(args[0] is Atom) {
        (Err(enrich_model(fresh_model(ErrKind::InvalidArguments, msg_map_name()), s.frames)), s)
    } else {
        let key = spec_eval(args[1], ctx, s, fuel);
        match key.0 {
            Err(e) => (Err(enrich_model(e, key.1.frames)), key.1),
            Ok(k) => {
                let s1 = key.1;
                if !s1.declared.contains((s1.cur_contract, matom(args[0]))) {
                    (
                        Err(
                            enrich_model(
                                fresh_model(ErrKind::UnknownMap, msg_unknown_map()),
                                s1.frames,
                            ),
                        ),
                        s1,
                    )
                } else {
                    (Ok(fetch_result(s1.contents, (s1.cur_contract, matom(args[0]), k))), s1)
                }
            },
        }
    }
}

/// The storage set form in the abstract.
pub open spec fn spec_set(
    args: Seq<ExprModel>,
    ctx: Seq<(Seq<char>, Value)>,
    s: EnvModel,
    fuel: u64,
) -> StepResult
    decreases fuel, 2int, 0int,
{
    if args.len() != 3 {
        (Err(enrich_model(fresh_model(ErrKind::InvalidArguments, msg_set_arity()), s.frames)), s)
    } else if !(args[0] is Atom) {
        (Err(enrich_model(fresh_model(ErrKind::InvalidArguments, msg_map_name()), s.frames)), s)
    } else {
        let key = spec_eval(args[1], ctx, s, fuel);
        match key.0 {
            Err(e) => (Err(enrich_model(e, key.1.frames)), key.1),
            Ok(k) => {
                let value = spec_eval(args[2], ctx, key.1, fuel);
                match value.0 {
                    Err(e) => (Err(enrich_model(e, value.1.frames)), value.1),
                    Ok(v) => {
                        let s2 = value.1;
                        if !s2.declared.contains((s2.cur_contract, matom(args[0]))) {
                            (
                                Err(
                                    enrich_model(
                                        fresh_model(ErrKind::UnknownMap, msg_unknown_map()),
                                        s2.frames,
                                    ),
                                ),
                                s2,
                            )
                        } else {
                            (
                                Ok(Value::Bool(true)),
                                EnvModel {
                                    contents: s2.contents.insert(
                                        (s2.cur_contract, matom(args[0]), k),
                                        v,
                                    ),
                                    ..s2
                                },
                            )
                        }
                    },
                }
            },
        }
    }
}

/// The storage insert form in the abstract.
pub open spec fn spec_insert(
    args: Seq<ExprModel>,
    ctx: Seq<(Seq<char>, Value)>,
    s: EnvModel,
    fuel: u64,
) -> StepResult
    decreases fuel, 2int, 0int,
{
    if args.len() != 3 {
        (
            Err(
                enrich_model(fresh_model(ErrKind::InvalidArguments, msg_insert_arity()), s.frames),
            ),
            s,
        )
    } else if !(args[0] is Atom) {
        (Err(enrich_model(fresh_model(ErrKind::InvalidArguments, msg_map_name()), s.frames)), s)
    } else {
        let key = spec_eval(args[1], ctx, s, fuel);
        match key.0 {
            Err(e) => (Err(enrich_model(e, key.1.frames)), key.1),
            Ok(k) => {
                let value = spec_eval(args[2], ctx, key.1, fuel);
                match value.0 {
                    Err(e) => (Err(enrich_model(e, value.1.frames)), value.1),
                    Ok(v) => {
                        let s2 = value.1;
                        let addr = (s2.cur_contract, matom(args[0]), k);
                        if !s2.declared.contains((s2.cur_contract, matom(args[0]))) {
                            (
                                Err(
                                    enrich_model(
                                        fresh_model(ErrKind::UnknownMap, msg_unknown_map()),
                                        s2.frames,
                                    ),
                                ),
                                s2,
                            )
                        } else if s2.contents.contains_key(addr) {
                            (Ok(Value::Bool(false)), s2)
                        } else {
                            (
                                Ok(Value::Bool(true)),
                                EnvModel { contents: s2.contents.insert(addr, v), ..s2 },
                            )
                        }
                    },
                }
            },
        }
    }
}

/// The storage delete form in the abstract.
pub open spec fn spec_delete(
    args: Seq<ExprModel>,
    ctx: Seq<(Seq<char>, Value)>,
    s: EnvModel,
    fuel: u64,
) -> StepResult
    decreases fuel, 2int, 0int,
{
    if args.len() != 2 {
        (
            Err(
                enrich_model(fresh_model(ErrKind::InvalidArguments, msg_delete_arity()), s.frames),
            ),
            s,
        )
    } else if !(args[0] is Atom) {
        (Err(enrich_model(fresh_model(ErrKind::InvalidArguments, msg_map_name()), s.frames)), s)
    } else {
        let key = spec_eval(args[1], ctx, s, fuel);
        match key.0 {
            Err(e) => (Err(enrich_model(e, key.1.frames)), key.1),
            Ok(k) => {
                let s1 = key.1;
                let addr = (s1.cur_contract, matom(args[0]), k);
                if !s1.declared.contains((s1.cur_contract, matom(args[0]))) {
                    (
                        Err(
                            enrich_model(
                                fresh_model(ErrKind::UnknownMap, msg_unknown_map()),
                                s1.frames,
                            ),
                        ),
                        s1,
                    )
                } else if !s1.contents.contains_key(addr) {
                    (Ok(Value::Bool(false)), s1)
                } else {
                    (
                        Ok(Value::Bool(true)),
                        EnvModel { contents: s1.contents.remove(addr), ..s1 },
                    )
                }
            },
        }
    }
}

/// The cross-contract call form in the abstract: validation (arity, sender,
/// the two name positions), then the depth check, then the trailing
/// arguments left to right, then delegation, with enrichment on the way out.
pub open spec fn spec_contract_call(
    args: Seq<ExprModel>,
    ctx: Seq<(Seq<char>, Value)>,
    s: EnvModel,
    fuel: u64,
) -> StepResult
    decreases fuel, 2int, 0int,
{
    if args.len() < 2 {
        (Err(enrich_model(fresh_model(ErrKind::InvalidArguments, msg_cc_arity()), s.frames)), s)
    } else if !s.sender_some {
        (Err(enrich_model(fresh_model(ErrKind::InvalidArguments, msg_no_sender()), s.frames)), s)
    } else if !(args[0] is Atom) {
        (
            Err(
                enrich_model(
                    fresh_model(ErrKind::InvalidArguments, msg_cc_contract_name()),
                    s.frames,
                ),
            ),
            s,
        )
    } else if !(args[1] is Atom) {
        (
            Err(
                enrich_model(
                    fresh_model(ErrKind::InvalidArguments, msg_cc_function_name()),
                    s.frames,
                ),
            ),
            s,
        )
    } else if fuel == 0 {
        (Err(fresh_model(ErrKind::MaxStackDepthReached, msg_depth())), s)
    } else {
        let trailing = spec_eval_args(args.subrange(2, args.len() as int), ctx, s, fuel);
        match trailing.0 {
            Err(e) => (Err(enrich_model(e, trailing.1.frames)), trailing.1),
            Ok(vals) => {
                let wrapped = vals.map_values(|v: Value| ExprModel::AtomValue(v));
                let exec = spec_execute(
                    matom(args[0]),
                    matom(args[1]),
                    wrapped,
                    trailing.1,
                    (fuel - 1) as u64,
                );
                match exec.0 {
                    Ok(v) => (Ok(v), exec.1),
                    Err(e) => (Err(enrich_model(e, exec.1.frames)), exec.1),
                }
            },
        }
    }
}

/// Cross-contract execution in the abstract: resolve the contract and the
/// function, check the argument count, enter a frame naming the callee and
/// rebind the identity, reduce the argument nodes in an empty context, bind
/// them to the parameters, evaluate the body.  On success the frame is
/// popped and the identity restored; on failure the frame is retained and
/// only the identity restored.
pub open spec fn spec_execute(
    cname: Seq<char>,
    fname: Seq<char>,
    args: Seq<ExprModel>,
    s: EnvModel,
    fuel: u64,
) -> StepResult
    decreases fuel, 3int, 0int,
{
    match find_contract_model(s.contracts, cname) {
        None => (Err(fresh_model(ErrKind::UnknownContract, msg_unknown_contract())), s),
        Some(ct) => match find_function_model(ct.functions, fname) {
            None => (
                Err(fresh_model(ErrKind::UnknownFunction, msg_unknown_function_target())),
                s,
            ),
            Some(f) => {
                if f.params.len() != args.len() {
                    (Err(fresh_model(ErrKind::InvalidArguments, msg_param_count())), s)
                } else {
                    let entered = EnvModel {
                        cur_contract: cname,
                        frames: s.frames.push((cname, fname)),
                        ..s
                    };
                    let trailing = spec_eval_args(
                        args,
                        Seq::<(Seq<char>, Value)>::empty(),
                        entered,
                        fuel,
                    );
                    match trailing.0 {
                        Err(e) => (
                            Err(e),
                            EnvModel { cur_contract: s.cur_contract, ..trailing.1 },
                        ),
                        Ok(vals) => {
                            let callee_ctx = Seq::new(
                                f.params.len(),
                                |i: int| (f.params[i], vals[i]),
                            );
                            let body = spec_eval(f.body, callee_ctx, trailing.1, fuel);
                            match body.0 {
                                Ok(v) => (
                                    Ok(v),
                                    EnvModel {
                                        cur_contract: s.cur_contract,
                                        frames: body.1.frames.drop_last(),
                                        ..body.1
                                    },
                                ),
                                Err(e) => (
                                    Err(e),
                                    EnvModel { cur_contract: s.cur_contract, ..body.1 },
                                ),
                            }
                        },
                    }
                }
            },
        },
    }
}

} // verus!
