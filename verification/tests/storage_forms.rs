use contract_vm::contexts::{CallStack, ContractContext, Environment, GlobalContext, LocalContext};
use contract_vm::database::DataStore;
use contract_vm::errors::ErrKind;
use contract_vm::functions::{
    eval, special_delete_entry, special_fetch_entry, special_insert_entry, special_set_entry,
};
use contract_vm::representations::SymbolicExpression;
use contract_vm::types::Value;

fn atom(s: &str) -> SymbolicExpression {
    SymbolicExpression::Atom(s.to_string())
}

fn av(v: Value) -> SymbolicExpression {
    SymbolicExpression::atom_value(v)
}

/// An environment for contract `alpha` with the maps in `maps` declared.
fn alpha_env(maps: &[&str]) -> Environment {
    let mut db = DataStore::new();
    for m in maps {
        db.define_map(&"alpha".to_string(), &m.to_string());
    }
    Environment {
        global_context: GlobalContext { database: db, contracts: Vec::new() },
        contract_context: ContractContext { name: "alpha".to_string() },
        call_stack: CallStack::new(),
        sender: Some(Value::Int(1)),
        call_limit: 64,
    }
}

/// A nested storage write whose effect must not be observed when it stands
/// in an argument position that is never evaluated.
fn side_effect_expr() -> SymbolicExpression {
    SymbolicExpression::List(vec![
        atom("set-entry!"),
        atom("kv"),
        av(Value::Int(99)),
        av(Value::Int(99)),
    ])
}

fn fetch_kv(env: &mut Environment, key: i128) -> Result<Value, contract_vm::errors::Error> {
    let ctx = LocalContext::new();
    special_fetch_entry(&[atom("kv"), av(Value::Int(key))], env, &ctx)
}

#[test]
fn fetch_then_set_then_fetch_roundtrip() {
    let mut env = alpha_env(&["kv"]);
    let ctx = LocalContext::new();
    assert_eq!(fetch_kv(&mut env, 1).unwrap(), Value::Void);
    let r = special_set_entry(
        &[atom("kv"), av(Value::Int(1)), av(Value::Int(42))],
        &mut env,
        &ctx,
    );
    assert_eq!(r.unwrap(), Value::Bool(true));
    assert_eq!(fetch_kv(&mut env, 1).unwrap(), Value::Int(42));
}

#[test]
fn set_overwrites_prior_value() {
    let mut env = alpha_env(&["kv"]);
    let ctx = LocalContext::new();
    special_set_entry(&[atom("kv"), av(Value::Int(1)), av(Value::Int(1))], &mut env, &ctx).unwrap();
    special_set_entry(&[atom("kv"), av(Value::Int(1)), av(Value::Int(2))], &mut env, &ctx).unwrap();
    assert_eq!(fetch_kv(&mut env, 1).unwrap(), Value::Int(2));
}

#[test]
fn insert_does_not_overwrite() {
    let mut env = alpha_env(&["kv"]);
    let ctx = LocalContext::new();
    let first = special_insert_entry(
        &[atom("kv"), av(Value::Int(7)), av(Value::Int(1))],
        &mut env,
        &ctx,
    );
    assert_eq!(first.unwrap(), Value::Bool(true));
    let second = special_insert_entry(
        &[atom("kv"), av(Value::Int(7)), av(Value::Int(2))],
        &mut env,
        &ctx,
    );
    assert_eq!(second.unwrap(), Value::Bool(false));
    assert_eq!(fetch_kv(&mut env, 7).unwrap(), Value::Int(1));
}

#[test]
fn delete_on_absent_key_is_a_valid_no_op() {
    let mut env = alpha_env(&["kv"]);
    let ctx = LocalContext::new();
    let r = special_delete_entry(&[atom("kv"), av(Value::Int(5))], &mut env, &ctx);
    assert_eq!(r.unwrap(), Value::Bool(false));
    assert_eq!(fetch_kv(&mut env, 5).unwrap(), Value::Void);
}

#[test]
fn delete_removes_a_present_entry() {
    let mut env = alpha_env(&["kv"]);
    let ctx = LocalContext::new();
    special_set_entry(&[atom("kv"), av(Value::Int(5)), av(Value::Int(8))], &mut env, &ctx).unwrap();
    let r = special_delete_entry(&[atom("kv"), av(Value::Int(5))], &mut env, &ctx);
    assert_eq!(r.unwrap(), Value::Bool(true));
    assert_eq!(fetch_kv(&mut env, 5).unwrap(), Value::Void);
}

#[test]
fn storage_is_isolated_by_contract_identity() {
    let mut db = DataStore::new();
    db.define_map(&"alpha".to_string(), &"shared".to_string());
    db.define_map(&"beta".to_string(), &"shared".to_string());
    let mut env = Environment {
        global_context: GlobalContext { database: db, contracts: Vec::new() },
        contract_context: ContractContext { name: "alpha".to_string() },
        call_stack: CallStack::new(),
        sender: Some(Value::Int(1)),
        call_limit: 64,
    };
    let ctx = LocalContext::new();
    special_set_entry(
        &[atom("shared"), av(Value::Int(1)), av(Value::Int(10))],
        &mut env,
        &ctx,
    )
    .unwrap();
    env.contract_context.name = "beta".to_string();
    special_set_entry(
        &[atom("shared"), av(Value::Int(1)), av(Value::Int(20))],
        &mut env,
        &ctx,
    )
    .unwrap();
    let beta_view =
        special_fetch_entry(&[atom("shared"), av(Value::Int(1))], &mut env, &ctx).unwrap();
    assert_eq!(beta_view, Value::Int(20));
    env.contract_context.name = "alpha".to_string();
    let alpha_view =
        special_fetch_entry(&[atom("shared"), av(Value::Int(1))], &mut env, &ctx).unwrap();
    assert_eq!(alpha_view, Value::Int(10));
}

#[test]
fn storage_is_isolated_by_map_name() {
    let mut env = alpha_env(&["kv", "other"]);
    let ctx = LocalContext::new();
    special_set_entry(&[atom("kv"), av(Value::Int(1)), av(Value::Int(10))], &mut env, &ctx)
        .unwrap();
    let other =
        special_fetch_entry(&[atom("other"), av(Value::Int(1))], &mut env, &ctx).unwrap();
    assert_eq!(other, Value::Void);
}

#[test]
fn fetch_wrong_arity_fails_without_evaluating_arguments() {
    let mut env = alpha_env(&["kv"]);
    let ctx = LocalContext::new();
    let args = [atom("kv"), av(Value::Int(99)), side_effect_expr()];
    let e = special_fetch_entry(&args, &mut env, &ctx).unwrap_err();
    assert_eq!(e.kind, ErrKind::InvalidArguments);
    assert_eq!(e.message, "(fetch-entry ...) requires exactly 2 arguments");
    assert_eq!(fetch_kv(&mut env, 99).unwrap(), Value::Void);
}

#[test]
fn set_wrong_arity_fails_without_evaluating_arguments() {
    let mut env = alpha_env(&["kv"]);
    let ctx = LocalContext::new();
    let args = [atom("kv"), av(Value::Int(99)), av(Value::Int(1)), side_effect_expr()];
    let e = special_set_entry(&args, &mut env, &ctx).unwrap_err();
    assert_eq!(e.kind, ErrKind::InvalidArguments);
    assert_eq!(e.message, "(set-entry! ...) requires exactly 3 arguments");
    assert_eq!(fetch_kv(&mut env, 99).unwrap(), Value::Void);
}

#[test]
fn insert_wrong_arity_fails_without_evaluating_arguments() {
    let mut env = alpha_env(&["kv"]);
    let ctx = LocalContext::new();
    let args = [atom("kv"), av(Value::Int(99)), av(Value::Int(1)), side_effect_expr()];
    let e = special_insert_entry(&args, &mut env, &ctx).unwrap_err();
    assert_eq!(e.kind, ErrKind::InvalidArguments);
    assert_eq!(e.message, "(insert-entry! ...) requires exactly 3 arguments");
    assert_eq!(fetch_kv(&mut env, 99).unwrap(), Value::Void);
}

#[test]
fn delete_wrong_arity_fails_without_evaluating_arguments() {
    let mut env = alpha_env(&["kv"]);
    let ctx = LocalContext::new();
    let args = [atom("kv"), av(Value::Int(99)), side_effect_expr()];
    let e = special_delete_entry(&args, &mut env, &ctx).unwrap_err();
    assert_eq!(e.kind, ErrKind::InvalidArguments);
    assert_eq!(e.message, "(delete-entry! ...) requires exactly 2 arguments");
    assert_eq!(fetch_kv(&mut env, 99).unwrap(), Value::Void);
}

#[test]
fn storage_forms_reject_a_non_identifier_map_name() {
    let mut env = alpha_env(&["kv"]);
    let ctx = LocalContext::new();
    let bad = av(Value::Int(3));
    let e =
        special_fetch_entry(&[bad.clone(), av(Value::Int(1))], &mut env, &ctx).unwrap_err();
    assert_eq!(e.kind, ErrKind::InvalidArguments);
    assert_eq!(e.message, "First argument in data functions must be the map name");
    let e = special_set_entry(
        &[bad.clone(), av(Value::Int(1)), av(Value::Int(2))],
        &mut env,
        &ctx,
    )
    .unwrap_err();
    assert_eq!(e.message, "First argument in data functions must be the map name");
    let e = special_insert_entry(
        &[bad.clone(), av(Value::Int(1)), av(Value::Int(2))],
        &mut env,
        &ctx,
    )
    .unwrap_err();
    assert_eq!(e.message, "First argument in data functions must be the map name");
    let e = special_delete_entry(&[bad, av(Value::Int(1))], &mut env, &ctx).unwrap_err();
    assert_eq!(e.message, "First argument in data functions must be the map name");
}

#[test]
fn fetch_on_an_undeclared_map_fails() {
    let mut env = alpha_env(&["kv"]);
    let ctx = LocalContext::new();
    let e = special_fetch_entry(&[atom("nosuch"), av(Value::Int(1))], &mut env, &ctx)
        .unwrap_err();
    assert_eq!(e.kind, ErrKind::UnknownMap);
    assert_eq!(e.message, "attempted to access an undefined map");
}

#[test]
fn eval_reduces_pre_evaluated_nodes_and_bound_names() {
    let mut env = alpha_env(&[]);
    let mut ctx = LocalContext::new();
    ctx.bind("x".to_string(), Value::Int(11));
    assert_eq!(eval(&av(Value::Int(3)), &mut env, &ctx).unwrap(), Value::Int(3));
    assert_eq!(eval(&atom("x"), &mut env, &ctx).unwrap(), Value::Int(11));
}

#[test]
fn eval_rejects_an_unbound_name_without_a_trace() {
    let mut env = alpha_env(&[]);
    let ctx = LocalContext::new();
    let e = eval(&atom("ghostly"), &mut env, &ctx).unwrap_err();
    assert_eq!(e.kind, ErrKind::UndefinedVariable);
    assert!(e.trace.is_none());
}

#[test]
fn eval_rejects_unknown_heads_and_malformed_applications() {
    let mut env = alpha_env(&[]);
    let ctx = LocalContext::new();
    let e = eval(
        &SymbolicExpression::List(vec![atom("frobnicate"), av(Value::Int(1))]),
        &mut env,
        &ctx,
    )
    .unwrap_err();
    assert_eq!(e.kind, ErrKind::UndefinedFunction);
    let e = eval(&SymbolicExpression::List(Vec::new()), &mut env, &ctx).unwrap_err();
    assert_eq!(e.kind, ErrKind::InvalidArguments);
    assert_eq!(e.message, "attempted to evaluate an empty expression");
    let e = eval(
        &SymbolicExpression::List(vec![av(Value::Int(1)), av(Value::Int(2))]),
        &mut env,
        &ctx,
    )
    .unwrap_err();
    assert_eq!(e.kind, ErrKind::InvalidArguments);
    assert_eq!(e.message, "expression head must be a function name");
}

#[test]
fn eval_dispatches_storage_forms_by_head_symbol() {
    let mut env = alpha_env(&["kv"]);
    let mut ctx = LocalContext::new();
    ctx.bind("k".to_string(), Value::Int(4));
    let form = SymbolicExpression::List(vec![
        atom("set-entry!"),
        atom("kv"),
        atom("k"),
        av(Value::Int(44)),
    ]);
    assert_eq!(eval(&form, &mut env, &ctx).unwrap(), Value::Bool(true));
    let fetch = SymbolicExpression::List(vec![atom("fetch-entry"), atom("kv"), atom("k")]);
    assert_eq!(eval(&fetch, &mut env, &ctx).unwrap(), Value::Int(44));
}

#[test]
fn eval_fails_when_the_depth_budget_is_exhausted() {
    let mut env = alpha_env(&["kv"]);
    env.call_limit = 0;
    let ctx = LocalContext::new();
    let form =
        SymbolicExpression::List(vec![atom("fetch-entry"), atom("kv"), av(Value::Int(1))]);
    let e = eval(&form, &mut env, &ctx).unwrap_err();
    assert_eq!(e.kind, ErrKind::MaxStackDepthReached);
    assert!(e.trace.is_none());
}
