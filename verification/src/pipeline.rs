//! The native build-and-load pipeline, and the shared evaluation shape.
//!
//! The pipeline that turns rendered source into a callable artifact runs
//! outside this crate: a file write, an external compiler, a dynamic load,
//! a symbol lookup. [`BuildPipeline`] is the verified state machine that
//! drives it: the driver performs each external step and reports its
//! outcome; the machine decides the next state. Every failure is terminal
//! for the invocation, and a resolved symbol is bound only after its
//! parameter count matched, so a mismatch becomes a reported
//! `SignatureMismatch` rather than a misbound call.

use vstd::prelude::*;

use crate::error::PipelineError;

verus! {

/// The stages of one build-and-load invocation, in order, with a terminal
/// failure reachable from every stage.
#[derive(Debug)]
pub enum PipelineState {
    /// Source text has been generated.
    Generated,
    /// The source has been persisted to the working path.
    Written,
    /// The external compiler produced the loadable artifact.
    Compiled,
    /// The artifact is loaded.
    Loaded,
    /// The exported symbol is resolved and its arity matched.
    Ready,
    /// The invocation failed; nothing is retried.
    Failed(PipelineError),
}

/// The state machine of one build-and-load invocation.
///
/// `expected_arity` is the parameter count of the generated function; the
/// machine refuses to become [`PipelineState::Ready`] unless the resolved
/// symbol reports exactly that arity.
#[derive(Debug)]
pub struct BuildPipeline {
    pub expected_arity: usize,
    pub state: PipelineState,
}

impl BuildPipeline {
    /// Starts an invocation for a generated function of `expected_arity`
    /// parameters.
    pub fn start(expected_arity: usize) -> (p: BuildPipeline)
        ensures
            p.expected_arity == expected_arity,
            p.state is Generated,
    {
        BuildPipeline { expected_arity, state: PipelineState::Generated }
    }

    /// Records the outcome of persisting the source.
    pub fn written(&mut self, result: Result<(), String>)
        requires
            old(self).state is Generated,
        ensures
            final(self).expected_arity == old(self).expected_arity,
            final(self).state == (match result {
                Ok(_) => PipelineState::Written,
                Err(m) => PipelineState::Failed(PipelineError::WriteFailure(m)),
            }),
    {
        match result {
            Ok(_) => {
                self.state = PipelineState::Written;
            },
            Err(m) => {
                self.state = PipelineState::Failed(PipelineError::WriteFailure(m));
            },
        }
    }

    /// Records the external compiler's exit: success, or its raw
    /// diagnostics.
    pub fn compiled(&mut self, success: bool, diagnostics: String)
        requires
            old(self).state is Written,
        ensures
            final(self).expected_arity == old(self).expected_arity,
            final(self).state == (if success {
                PipelineState::Compiled
            } else {
                PipelineState::Failed(PipelineError::CompileFailure(diagnostics))
            }),
    {
        if success {
            self.state = PipelineState::Compiled;
        } else {
            self.state = PipelineState::Failed(PipelineError::CompileFailure(diagnostics));
        }
    }

    /// Records the outcome of loading the artifact.
    pub fn loaded(&mut self, result: Result<(), String>)
        requires
            old(self).state is Compiled,
        ensures
            final(self).expected_arity == old(self).expected_arity,
            final(self).state == (match result {
                Ok(_) => PipelineState::Loaded,
                Err(m) => PipelineState::Failed(PipelineError::LoadFailure(m)),
            }),
    {
        match result {
            Ok(_) => {
                self.state = PipelineState::Loaded;
            },
            Err(m) => {
                self.state = PipelineState::Failed(PipelineError::LoadFailure(m));
            },
        }
    }

    /// Records the symbol lookup: whether `symbol` was found and, when it
    /// was, the arity its binding reports. The machine becomes `Ready` only
    /// on an exact arity match.
    pub fn resolved(&mut self, symbol: String, found: bool, arity: usize)
        requires
            old(self).state is Loaded,
        ensures
            final(self).expected_arity == old(self).expected_arity,
            final(self).state == (if !found {
                PipelineState::Failed(PipelineError::SymbolNotFound(symbol))
            } else if arity == old(self).expected_arity {
                PipelineState::Ready
            } else {
                PipelineState::Failed(
                    PipelineError::SignatureMismatch {
                        expected: old(self).expected_arity,
                        found: arity,
                    },
                )
            }),
    {
        if !found {
            self.state = PipelineState::Failed(PipelineError::SymbolNotFound(symbol));
        } else if arity == self.expected_arity {
            self.state = PipelineState::Ready;
        } else {
            self.state = PipelineState::Failed(
                PipelineError::SignatureMismatch { expected: self.expected_arity, found: arity },
            );
        }
    }

    /// Whether the invocation reached its callable.
    pub fn is_ready(&self) -> (r: bool)
        ensures
            r == self.state is Ready,
    {
        matches!(self.state, PipelineState::Ready)
    }
}

/// The shared evaluation shape of every backend: the output has the
/// inputs' length, and its element at index `i` is an image of the inputs
/// at index `i` alone. No element depends on another, so the order in which
/// elements are evaluated cannot change the result.
pub fn compute_pairs<T: Copy, U, F: Fn(T, T) -> U>(a: &Vec<T>, b: &Vec<T>, f: &F) -> (r: Vec<U>)
    requires
        a@.len() == b@.len(),
        forall|i: int| 0 <= i < a@.len() ==> call_requires(*f, (a@[i], b@[i])),
    ensures
        r@.len() == a@.len(),
        forall|i: int| 0 <= i < a@.len() ==> call_ensures(*f, (a@[i], b@[i]), #[trigger] r@[i]),
{
    let mut out: Vec<U> = Vec::new();
    let mut i: usize = 0;
    while i < a.len()
        invariant
            a@.len() == b@.len(),
            i <= a@.len(),
            out@.len() == i,
            forall|k: int| 0 <= k < a@.len() ==> call_requires(*f, (a@[k], b@[k])),
            forall|k: int| 0 <= k < i ==> call_ensures(*f, (a@[k], b@[k]), #[trigger] out@[k]),
        decreases a@.len() - i,
    {
        out.push(f(a[i], b[i]));
        i += 1;
    }
    out
}

} // verus!
