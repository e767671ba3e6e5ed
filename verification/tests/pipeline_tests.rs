//! The build-and-load state machine and the shared evaluation shape.

use math_expr::{compute_pairs, BuildPipeline, PipelineError, PipelineState};

#[test]
fn pipeline_reaches_ready_on_matching_arity() {
    let mut p = BuildPipeline::start(2);
    assert!(matches!(p.state, PipelineState::Generated));
    p.written(Ok(()));
    assert!(matches!(p.state, PipelineState::Written));
    p.compiled(true, String::new());
    assert!(matches!(p.state, PipelineState::Compiled));
    p.loaded(Ok(()));
    assert!(matches!(p.state, PipelineState::Loaded));
    p.resolved("ndvi".to_string(), true, 2);
    assert!(p.is_ready());
}

#[test]
fn pipeline_fails_on_compiler_diagnostics() {
    let mut p = BuildPipeline::start(2);
    p.written(Ok(()));
    p.compiled(false, "expected one of: `!`".to_string());
    match &p.state {
        PipelineState::Failed(PipelineError::CompileFailure(diag)) => {
            assert_eq!(diag, "expected one of: `!`");
        }
        other => panic!("expected a compile failure, got {:?}", other),
    }
    assert!(!p.is_ready());
}

#[test]
fn pipeline_fails_on_write_error() {
    let mut p = BuildPipeline::start(1);
    p.written(Err("read-only file system".to_string()));
    assert!(matches!(
        p.state,
        PipelineState::Failed(PipelineError::WriteFailure(_))
    ));
}

#[test]
fn pipeline_fails_on_load_error() {
    let mut p = BuildPipeline::start(1);
    p.written(Ok(()));
    p.compiled(true, String::new());
    p.loaded(Err("no such file".to_string()));
    assert!(matches!(
        p.state,
        PipelineState::Failed(PipelineError::LoadFailure(_))
    ));
}

#[test]
fn pipeline_fails_on_missing_symbol() {
    let mut p = BuildPipeline::start(1);
    p.written(Ok(()));
    p.compiled(true, String::new());
    p.loaded(Ok(()));
    p.resolved("ndvi".to_string(), false, 0);
    match &p.state {
        PipelineState::Failed(PipelineError::SymbolNotFound(symbol)) => {
            assert_eq!(symbol, "ndvi");
        }
        other => panic!("expected a missing symbol, got {:?}", other),
    }
}

#[test]
fn pipeline_rejects_arity_mismatch() {
    let mut p = BuildPipeline::start(2);
    p.written(Ok(()));
    p.compiled(true, String::new());
    p.loaded(Ok(()));
    p.resolved("ndvi".to_string(), true, 3);
    assert_eq!(
        match &p.state {
            PipelineState::Failed(PipelineError::SignatureMismatch { expected, found }) =>
                (*expected, *found),
            other => panic!("expected a signature mismatch, got {:?}", other),
        },
        (2, 3)
    );
    assert!(!p.is_ready());
}

#[test]
fn compute_pairs_maps_elementwise() {
    let a: Vec<f64> = vec![1.0, 2.0, 3.0, 4.0];
    let b: Vec<f64> = vec![4.0, 3.0, 2.0, 1.0];
    let out = compute_pairs(&a, &b, &|x: f64, y: f64| (x - y) / (x + y));
    assert_eq!(out.len(), 4);
    for i in 0..4 {
        assert_eq!(out[i], (a[i] - b[i]) / (a[i] + b[i]));
    }
}

#[test]
fn compute_pairs_has_no_cross_element_dependency() {
    let a: Vec<f64> = vec![5.0, -1.0, 0.5];
    let b: Vec<f64> = vec![2.0, 7.0, 0.25];
    let forward = compute_pairs(&a, &b, &|x: f64, y: f64| x * y + 1.0);
    let ra: Vec<f64> = a.iter().rev().copied().collect();
    let rb: Vec<f64> = b.iter().rev().copied().collect();
    let backward = compute_pairs(&ra, &rb, &|x: f64, y: f64| x * y + 1.0);
    let backward_reversed: Vec<f64> = backward.iter().rev().copied().collect();
    assert_eq!(forward, backward_reversed);
}

#[test]
fn compute_pairs_on_empty_inputs_is_empty() {
    let a: Vec<f64> = vec![];
    let b: Vec<f64> = vec![];
    let out = compute_pairs(&a, &b, &|x: f64, y: f64| x + y);
    assert!(out.is_empty());
}
