//! One operation, traced through every ARRAKIS layer: publish a program, and
//! safely run it somewhere else.
//!
//! This crate holds the verified decisions of that operation: the trace that
//! records what each layer did, the text it records, the checks that make every
//! hop agree with the one before it, and the controller of the consensus loop.

use vstd::prelude::*;

pub mod text;
pub mod artifact;
pub mod trace;
pub mod pipeline;
pub mod report;
pub mod consensus;
pub mod demo;
pub mod operation;

pub use pipeline::{PipelineError, Tamper};
pub use trace::{Step, Trace};

verus! {

/// The program published by the default demo: a recursive factorial and a
/// loop, so the result depends on real control flow and calls.
pub const DEMO_SOURCE: &'static str = "fn fact(n: i64) -> i64 {\n    if n <= 1 {\n        return 1;\n    } else {\n        return n * fact(n - 1);\n    }\n}\n\nfn sum_to(n: i64) -> i64 {\n    let total = 0;\n    let i = 1;\n    while i <= n {\n        total = total + i;\n        i = i + 1;\n    }\n    return total;\n}\n\nfn main() -> i64 {\n    return fact(6) + sum_to(10);\n}\n";

/// What [`DEMO_SOURCE`]'s `main` returns: 6! + (1 + ... + 10) = 720 + 55.
pub const DEMO_RESULT: i64 = 775;

} // verus!
