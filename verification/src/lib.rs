//! The boundary layer of a small smart-contract interpreter: the special
//! forms through which a running contract reads and mutates its persistent
//! key-value storage, and through which one contract invokes a public
//! function of another contract.
//!
//! The layer enforces three invariants:
//! - storage isolation: a contract only addresses its own namespace of
//!   persistent maps, keyed by (contract identity, map name);
//! - authenticated call context: a cross-contract call requires a known
//!   sender principal and is rejected otherwise;
//! - diagnosability: a failure inside a nested call carries a trace of the
//!   chain of contract invocations that produced it.

pub mod types;
pub mod errors;
pub mod representations;
pub mod database;
pub mod contexts;
pub mod semantics;
pub mod eval;
pub mod functions;
