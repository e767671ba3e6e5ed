//! Error taxonomy of the expression compiler.
//!
//! Build-time problems (syntax and binding) and code-generation problems are
//! reported as [`BuildError`]; failures of the native build-and-load pipeline
//! are reported as [`PipelineError`].

use vstd::prelude::*;

verus! {

/// An error raised while parsing source text, while building the syntax
/// tree, or while generating code from it.
///
/// Syntax errors carry the character position of the offending text and a
/// short description of what was expected there. Binding errors carry the
/// offending name.
#[derive(Debug, Clone, PartialEq)]
pub enum BuildError {
    /// The source text does not match the grammar.
    Parse { position: usize, expected: String },
    /// An identifier was referenced that is neither a parameter nor a
    /// previously assigned variable.
    UnknownIdentifier(String),
    /// An assignment targets a name that is already a parameter.
    AssignToParameter(String),
    /// A branch chain has no terminal `else` arm.
    MalformedBranch,
    /// A boolean position holds text that is not a boolean expression.
    MalformedBooleanExpression,
    /// Code generation met an imported function that the builtin catalog
    /// does not define.
    UnsupportedBuiltin(String),
}

/// The mathematical image of a [`BuildError`]: positions as `int`, names and
/// descriptions as character sequences.
pub enum BuildErrorView {
    Parse { position: int, expected: Seq<char> },
    UnknownIdentifier(Seq<char>),
    AssignToParameter(Seq<char>),
    MalformedBranch,
    MalformedBooleanExpression,
    UnsupportedBuiltin(Seq<char>),
}

impl DeepView for BuildError {
    type V = BuildErrorView;

    open spec fn deep_view(&self) -> BuildErrorView {
        match self {
            BuildError::Parse { position, expected } => BuildErrorView::Parse {
                position: *position as int,
                expected: expected@,
            },
            BuildError::UnknownIdentifier(name) => BuildErrorView::UnknownIdentifier(name@),
            BuildError::AssignToParameter(name) => BuildErrorView::AssignToParameter(name@),
            BuildError::MalformedBranch => BuildErrorView::MalformedBranch,
            BuildError::MalformedBooleanExpression => BuildErrorView::MalformedBooleanExpression,
            BuildError::UnsupportedBuiltin(name) => BuildErrorView::UnsupportedBuiltin(name@),
        }
    }
}

/// The image of a `Result` under the deep views of both of its sides.
pub open spec fn result_view<T: DeepView, E: DeepView>(r: Result<T, E>) -> Result<T::V, E::V> {
    match r {
        Ok(v) => Ok(v.deep_view()),
        Err(e) => Err(e.deep_view()),
    }
}

/// An error raised by the native build-and-load pipeline.
///
/// Every variant is terminal for the pipeline invocation that raised it;
/// none is retried.
#[derive(Debug, Clone, PartialEq)]
pub enum PipelineError {
    /// Persisting the generated source failed.
    WriteFailure(String),
    /// The external compiler exited with a failure; the payload carries its
    /// raw diagnostics.
    CompileFailure(String),
    /// The compiled artifact could not be loaded.
    LoadFailure(String),
    /// The artifact exports no symbol of the expected name.
    SymbolNotFound(String),
    /// The artifact's exported function does not take the expected number of
    /// parameters.
    SignatureMismatch { expected: usize, found: usize },
}

} // verus!
