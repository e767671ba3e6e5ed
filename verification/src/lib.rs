//! A compiler for a small arithmetic and boolean expression language.
//!
//! Source text is parsed by two families of mutually recursive descent
//! parsers (arithmetic and boolean) into an abstract syntax tree ([`Ast`]),
//! variable bindings are validated during the build, and the tree is
//! rendered into native source text implementing the expression as an
//! exported function. A verified state machine models the external
//! build-and-load pipeline that turns the rendered source into a callable
//! artifact.

pub mod ast;
pub mod codegen;
pub mod error;
pub mod parser;
pub mod pipeline;
pub mod token;

pub use ast::Assignment;
pub use ast::Ast;
pub use ast::AstNode;
pub use ast::AstOperator;
pub use ast::BooleanComparator;
pub use ast::BooleanExpression;
pub use ast::BooleanOperator;
pub use ast::Branch;
pub use error::BuildError;
pub use error::PipelineError;
pub use pipeline::BuildPipeline;
pub use pipeline::PipelineState;
pub use pipeline::compute_pairs;
