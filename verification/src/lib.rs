//! Compile-time code generation engine: a whitespace-faithful token
//! serializer, a pattern compiler for typed invocation signatures, a
//! recursive rewriter for builtin emit/capture forms, the decision logic of
//! an ephemeral build-and-run orchestrator, and a line-oriented protocol
//! parser for the generated program's output.

pub mod braces;
pub mod codegen;
pub mod config;
pub mod expander;
pub mod options;
pub mod orchestrator;
pub mod paths;
pub mod protocol;
pub mod serializer;
pub mod signature;
pub mod strutil;
pub mod tokens;
