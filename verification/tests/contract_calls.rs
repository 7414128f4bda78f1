use contract_vm::contexts::{
    CallStack, Contract, ContractContext, ContractFunction, Environment, GlobalContext,
    LocalContext,
};
use contract_vm::database::DataStore;
use contract_vm::errors::ErrKind;
use contract_vm::functions::{special_contract_call, special_fetch_entry};
use contract_vm::representations::SymbolicExpression;
use contract_vm::types::Value;

fn name_atom(s: &str) -> SymbolicExpression {
    SymbolicExpression::Atom(s.to_string())
}

fn value_node(v: Value) -> SymbolicExpression {
    SymbolicExpression::atom_value(v)
}

fn public_fn(name: &str, params: &[&str], body: SymbolicExpression) -> ContractFunction {
    ContractFunction {
        name: name.to_string(),
        params: params.iter().map(|p| p.to_string()).collect(),
        body,
    }
}

fn call_env(db: DataStore, contracts: Vec<Contract>, sender: Option<Value>) -> Environment {
    Environment {
        global_context: GlobalContext { database: db, contracts },
        contract_context: ContractContext { name: "main".to_string() },
        call_stack: CallStack::new(),
        sender,
        call_limit: 64,
    }
}

#[test]
fn contract_call_requires_two_arguments() {
    let mut env = call_env(DataStore::new(), Vec::new(), Some(Value::Int(1)));
    let ctx = LocalContext::new();
    let e = special_contract_call(&[name_atom("target")], &mut env, &ctx).unwrap_err();
    assert_eq!(e.kind, ErrKind::InvalidArguments);
    assert_eq!(
        e.message,
        "(contract-call ...) requires at least 2 arguments: the contract name and the public function name"
    );
}

#[test]
fn contract_call_without_sender_fails_before_evaluating_arguments() {
    let mut db = DataStore::new();
    db.define_map(&"main".to_string(), &"kv".to_string());
    let mut env = call_env(db, Vec::new(), None);
    let ctx = LocalContext::new();
    let effect = SymbolicExpression::List(vec![
        name_atom("set-entry!"),
        name_atom("kv"),
        value_node(Value::Int(3)),
        value_node(Value::Int(3)),
    ]);
    let e = special_contract_call(&[name_atom("a"), name_atom("f"), effect], &mut env, &ctx)
        .unwrap_err();
    assert_eq!(e.kind, ErrKind::InvalidArguments);
    assert_eq!(
        e.message,
        "No sender in current context. Did you attempt to (contract-call ...) from a non-contract aware environment?"
    );
    let probe = special_fetch_entry(
        &[name_atom("kv"), value_node(Value::Int(3))],
        &mut env,
        &ctx,
    );
    assert_eq!(probe.unwrap(), Value::Void);
}

#[test]
fn missing_sender_is_reported_even_with_an_exhausted_budget() {
    let mut env = call_env(DataStore::new(), Vec::new(), None);
    env.call_limit = 0;
    let ctx = LocalContext::new();
    let e = special_contract_call(&[name_atom("a"), name_atom("f")], &mut env, &ctx)
        .unwrap_err();
    assert_eq!(e.kind, ErrKind::InvalidArguments);
    assert_eq!(
        e.message,
        "No sender in current context. Did you attempt to (contract-call ...) from a non-contract aware environment?"
    );
}

#[test]
fn contract_call_rejects_non_identifier_name_positions() {
    let mut env = call_env(DataStore::new(), Vec::new(), Some(Value::Int(1)));
    let ctx = LocalContext::new();
    let e = special_contract_call(
        &[value_node(Value::Int(1)), name_atom("f")],
        &mut env,
        &ctx,
    )
    .unwrap_err();
    assert_eq!(e.kind, ErrKind::InvalidArguments);
    assert_eq!(e.message, "First argument to (contract-call ...) must be contract name");
    let e = special_contract_call(
        &[name_atom("a"), value_node(Value::Int(1))],
        &mut env,
        &ctx,
    )
    .unwrap_err();
    assert_eq!(e.kind, ErrKind::InvalidArguments);
    assert_eq!(e.message, "Second argument to (contract-call ...) must be function name");
}

#[test]
fn contract_call_reports_an_undeployed_contract() {
    let mut env = call_env(DataStore::new(), Vec::new(), Some(Value::Int(1)));
    let ctx = LocalContext::new();
    let e = special_contract_call(&[name_atom("nobody"), name_atom("f")], &mut env, &ctx)
        .unwrap_err();
    assert_eq!(e.kind, ErrKind::UnknownContract);
    assert_eq!(e.message, "attempted to call an undeployed contract");
}

#[test]
fn contract_call_reports_a_missing_function_and_a_bad_argument_count() {
    let target = Contract {
        name: "target".to_string(),
        functions: vec![public_fn("seven", &[], value_node(Value::Int(7)))],
    };
    let mut env = call_env(DataStore::new(), vec![target], Some(Value::Int(1)));
    let ctx = LocalContext::new();
    let e = special_contract_call(&[name_atom("target"), name_atom("eight")], &mut env, &ctx)
        .unwrap_err();
    assert_eq!(e.kind, ErrKind::UnknownFunction);
    assert_eq!(e.message, "attempted to call a function the contract does not expose");
    let e = special_contract_call(
        &[name_atom("target"), name_atom("seven"), value_node(Value::Int(1))],
        &mut env,
        &ctx,
    )
    .unwrap_err();
    assert_eq!(e.kind, ErrKind::InvalidArguments);
    assert_eq!(e.message, "called function expects a different number of arguments");
}

#[test]
fn contract_call_returns_the_callee_result_and_balances_the_stack() {
    let target = Contract {
        name: "target".to_string(),
        functions: vec![public_fn("seven", &[], value_node(Value::Int(7)))],
    };
    let mut env = call_env(DataStore::new(), vec![target], Some(Value::Int(1)));
    let ctx = LocalContext::new();
    let r = special_contract_call(&[name_atom("target"), name_atom("seven")], &mut env, &ctx);
    assert_eq!(r.unwrap(), Value::Int(7));
    assert_eq!(env.call_stack.frames.len(), 0);
}

#[test]
fn contract_call_binds_evaluated_arguments_to_parameters() {
    let target = Contract {
        name: "echoer".to_string(),
        functions: vec![public_fn("echo", &["x"], name_atom("x"))],
    };
    let mut env = call_env(DataStore::new(), vec![target], Some(Value::Int(1)));
    let mut ctx = LocalContext::new();
    ctx.bind("v".to_string(), Value::Int(5));
    let r = special_contract_call(
        &[name_atom("echoer"), name_atom("echo"), name_atom("v")],
        &mut env,
        &ctx,
    );
    assert_eq!(r.unwrap(), Value::Int(5));
}

#[test]
fn callee_writes_under_its_own_identity() {
    let mut db = DataStore::new();
    db.define_map(&"writer".to_string(), &"m".to_string());
    let write_form = SymbolicExpression::List(vec![
        name_atom("set-entry!"),
        name_atom("m"),
        value_node(Value::Int(1)),
        value_node(Value::Int(2)),
    ]);
    let writer = Contract {
        name: "writer".to_string(),
        functions: vec![public_fn("w", &[], write_form)],
    };
    let mut env = call_env(db, vec![writer], Some(Value::Int(1)));
    let ctx = LocalContext::new();
    let r = special_contract_call(&[name_atom("writer"), name_atom("w")], &mut env, &ctx);
    assert_eq!(r.unwrap(), Value::Bool(true));
    assert_eq!(env.contract_context.name, "main");
    // The caller has no map of that name: the write landed in the callee's
    // namespace only.
    let e = special_fetch_entry(&[name_atom("m"), value_node(Value::Int(1))], &mut env, &ctx)
        .unwrap_err();
    assert_eq!(e.kind, ErrKind::UnknownMap);
    env.contract_context.name = "writer".to_string();
    let v = special_fetch_entry(&[name_atom("m"), value_node(Value::Int(1))], &mut env, &ctx)
        .unwrap();
    assert_eq!(v, Value::Int(2));
}

#[test]
fn failure_three_calls_deep_carries_three_correctly_named_frames() {
    let failing_fetch = SymbolicExpression::List(vec![
        name_atom("fetch-entry"),
        name_atom("missing"),
        value_node(Value::Int(1)),
    ]);
    let c = Contract {
        name: "c".to_string(),
        functions: vec![public_fn("h", &[], failing_fetch)],
    };
    let call_c = SymbolicExpression::List(vec![
        name_atom("contract-call"),
        name_atom("c"),
        name_atom("h"),
    ]);
    let b = Contract { name: "b".to_string(), functions: vec![public_fn("g", &[], call_c)] };
    let call_b = SymbolicExpression::List(vec![
        name_atom("contract-call"),
        name_atom("b"),
        name_atom("g"),
    ]);
    let a = Contract { name: "a".to_string(), functions: vec![public_fn("f", &[], call_b)] };
    let mut env = call_env(DataStore::new(), vec![a, b, c], Some(Value::Int(1)));
    let ctx = LocalContext::new();
    let e = special_contract_call(&[name_atom("a"), name_atom("f")], &mut env, &ctx)
        .unwrap_err();
    assert_eq!(e.kind, ErrKind::UnknownMap);
    assert_eq!(e.message, "attempted to access an undefined map");
    let trace = e.trace.expect("a storage failure carries a trace");
    assert_eq!(trace.len(), 3);
    assert_eq!(trace[0].contract, "a");
    assert_eq!(trace[0].function, "f");
    assert_eq!(trace[1].contract, "b");
    assert_eq!(trace[1].function, "g");
    assert_eq!(trace[2].contract, "c");
    assert_eq!(trace[2].function, "h");
}

#[test]
fn runaway_recursion_is_stopped_by_the_depth_budget() {
    let self_call = SymbolicExpression::List(vec![
        name_atom("contract-call"),
        name_atom("looper"),
        name_atom("spin"),
    ]);
    let looper = Contract {
        name: "looper".to_string(),
        functions: vec![public_fn("spin", &[], self_call)],
    };
    let mut env = call_env(DataStore::new(), vec![looper], Some(Value::Int(1)));
    let ctx = LocalContext::new();
    let e = special_contract_call(&[name_atom("looper"), name_atom("spin")], &mut env, &ctx)
        .unwrap_err();
    assert_eq!(e.kind, ErrKind::MaxStackDepthReached);
}

#[test]
fn execute_contract_runs_a_deployed_function_directly() {
    let target = Contract {
        name: "target".to_string(),
        functions: vec![public_fn("seven", &[], value_node(Value::Int(7)))],
    };
    let mut env = call_env(DataStore::new(), vec![target], Some(Value::Int(1)));
    let r = env.execute_contract(&"target".to_string(), &"seven".to_string(), &[]);
    assert_eq!(r.unwrap(), Value::Int(7));
}
