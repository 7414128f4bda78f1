//! The execution contexts threaded through every special-form evaluation:
//! the lexical context of local bindings, the call stack of contract
//! invocation frames, the registry of deployed contracts, and the
//! environment that owns them for the duration of one top-level invocation.

use vstd::prelude::*;
use crate::types::Value;
use crate::errors::StackFrame;
use crate::database::DataStore;
use crate::representations::SymbolicExpression;

verus! {

/// The value bound to `name` in the bindings, earlier bindings shadowing
/// later ones; `None` when the name is unbound.
pub open spec fn lookup_binding(s: Seq<(String, Value)>, name: Seq<char>) -> Option<Value>
    decreases s.len(),
{
    if s.len() == 0 {
        None
    } else if s[0].0@ == name {
        Some(s[0].1)
    } else {
        lookup_binding(s.drop_first(), name)
    }
}

/// The lexical context: locally bound identifiers and their values, scoped
/// to the currently evaluating expression.  This layer reads it and never
/// mutates it.
pub struct LocalContext {
    pub bindings: Vec<(String, Value)>,
}

impl LocalContext {
    /// A context with no bindings.
    pub fn new() -> (c: LocalContext)
        ensures
            c.bindings@.len() == 0,
    {
        LocalContext { bindings: Vec::new() }
    }

    /// Binds a name in front of the existing bindings.
    pub fn bind(&mut self, name: String, value: Value)
        ensures
            final(self).bindings@ == seq![(name, value)] + old(self).bindings@,
    {
        self.bindings.insert(0, (name, value));
        proof {
            assert(self.bindings@ =~= seq![(name, value)] + old(self).bindings@);
        }
    }

    /// Looks a name up in the bindings.
    pub fn lookup(&self, name: &String) -> (r: Option<Value>)
        ensures
            r == lookup_binding(self.bindings@, name@),
    {
        let mut i: usize = 0;
        proof {
            assert(self.bindings@.skip(0) =~= self.bindings@);
        }
        while i < self.bindings.len()
            invariant
                0 <= i <= self.bindings@.len(),
                lookup_binding(self.bindings@, name@) == lookup_binding(
                    self.bindings@.skip(i as int),
                    name@,
                ),
            decreases self.bindings@.len() - i,
        {
            proof {
                assert(self.bindings@.skip(i as int)[0] == self.bindings@[i as int]);
                assert(self.bindings@.skip(i as int).drop_first() =~= self.bindings@.skip(
                    i as int + 1,
                ));
            }
            if self.bindings[i].0 == *name {
                return Some(self.bindings[i].1);
            }
            i = i + 1;
        }
        None
    }
}

/// The call stack: the ordered record of contract invocation frames.
/// A frame is pushed when a contract invocation is entered and popped when
/// it returns; the frames of a failed invocation are retained, since a
/// failure tears the whole top-level invocation down, and they are what a
/// stack trace renders.
pub struct CallStack {
    pub frames: Vec<StackFrame>,
}

impl CallStack {
    /// An empty call stack.
    pub fn new() -> (s: CallStack)
        ensures
            s.frames@.len() == 0,
    {
        CallStack { frames: Vec::new() }
    }

    /// Enters a frame.
    pub fn push(&mut self, frame: StackFrame)
        ensures
            final(self).frames@ == old(self).frames@.push(frame),
    {
        self.frames.push(frame);
    }

    /// Leaves the innermost frame.
    pub fn pop(&mut self)
        ensures
            old(self).frames@.len() > 0 ==> final(self).frames@ == old(self).frames@.drop_last(),
            old(self).frames@.len() == 0 ==> final(self).frames@ == old(self).frames@,
    {
        let _ = self.frames.pop();
        proof {
            if old(self).frames@.len() > 0 {
                assert(self.frames@ =~= old(self).frames@.drop_last());
            }
        }
    }

    /// Renders the current stack as trace data: a copy of the frames, the
    /// outermost invocation first.
    pub fn make_stack_trace(&self) -> (t: Vec<StackFrame>)
        ensures
            t@ == self.frames@,
    {
        let mut t: Vec<StackFrame> = Vec::new();
        let mut i: usize = 0;
        while i < self.frames.len()
            invariant
                0 <= i <= self.frames@.len(),
                t@ =~= self.frames@.subrange(0, i as int),
            decreases self.frames@.len() - i,
        {
            t.push(
                StackFrame {
                    contract: self.frames[i].contract.clone(),
                    function: self.frames[i].function.clone(),
                },
            );
            proof {
                assert(t@ =~= self.frames@.subrange(0, i as int + 1));
            }
            i = i + 1;
        }
        proof {
            assert(t@ =~= self.frames@);
        }
        t
    }
}

/// One public function of a deployed contract: its name, its parameter
/// names, and its body expression.
pub struct ContractFunction {
    pub name: String,
    pub params: Vec<String>,
    pub body: SymbolicExpression,
}

/// A deployed contract: its identity and its public functions.  Contract
/// loading, where these are built, is a collaborator of this layer; deployed
/// contracts are read-only here.
pub struct Contract {
    pub name: String,
    pub functions: Vec<ContractFunction>,
}

/// The first deployed contract of the given name, if any.
pub open spec fn find_contract(s: Seq<Contract>, name: Seq<char>) -> Option<Contract>
    decreases s.len(),
{
    if s.len() == 0 {
        None
    } else if s[0].name@ == name {
        Some(s[0])
    } else {
        find_contract(s.drop_first(), name)
    }
}

/// The first public function of the given name, if any.
pub open spec fn find_function(s: Seq<ContractFunction>, name: Seq<char>) -> Option<
    ContractFunction,
>
    decreases s.len(),
{
    if s.len() == 0 {
        None
    } else if s[0].name@ == name {
        Some(s[0])
    } else {
        find_function(s.drop_first(), name)
    }
}

/// The process-wide execution state: the persistent store and the deployed
/// contracts.
pub struct GlobalContext {
    pub database: DataStore,
    pub contracts: Vec<Contract>,
}

/// The identity of the currently executing contract, the namespace
/// qualifier for all of its persistent-map access.
pub struct ContractContext {
    pub name: String,
}

/// The execution environment of one top-level invocation, threaded by
/// exclusive mutable reference through every nested evaluation.
pub struct Environment {
    pub global_context: GlobalContext,
    pub contract_context: ContractContext,
    pub call_stack: CallStack,
    /// The authenticated principal of the current call chain; `None` only
    /// when execution is not contract-aware.
    pub sender: Option<Value>,
    /// The evaluation depth budget granted by the external resource-limiting
    /// collaborator; never changed by this layer.
    pub call_limit: u64,
}

impl Environment {
    /// Well-formedness of the environment: its store is well-formed.
    pub open spec fn wf(self) -> bool {
        self.global_context.database.wf()
    }
}

} // verus!
