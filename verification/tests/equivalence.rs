//! The equivalence oracle: cross-matching engine outcomes and bounded
//! solution sets for one validated pair.

use eqcheck::oracle::analyze_fn;
use eqcheck::outcome::{
    ComparisonResult, Diagnosis, Outcome, PathOutcome, PossibleSolutions, Solution,
};
use eqcheck::program::{FuncDecl, Module, RetType, TypeDesc};

fn decl(name: &str, params: &[&str], ret: RetType) -> FuncDecl {
    FuncDecl {
        name: name.as_bytes().to_vec(),
        params: params
            .iter()
            .map(|p| TypeDesc { repr: p.as_bytes().to_vec() })
            .collect(),
        ret,
    }
}

fn single(f: FuncDecl) -> Module {
    Module { fns: vec![f] }
}

fn u8_pair() -> (Module, Module) {
    (
        single(decl("old::foo", &["i8"], RetType::Sized { bits: 8 })),
        single(decl("new::foo", &["i8"], RetType::Sized { bits: 8 })),
    )
}

fn exactly(values: &[&str]) -> PossibleSolutions {
    PossibleSolutions::Exactly(
        values
            .iter()
            .map(|v| Solution { bits: v.as_bytes().to_vec() })
            .collect(),
    )
}

fn ret(values: &[&str]) -> PathOutcome {
    PathOutcome::Return(exactly(values))
}

fn old_name() -> Vec<u8> {
    b"old::foo".to_vec()
}

fn new_name() -> Vec<u8> {
    b"new::foo".to_vec()
}

fn run_oracle(
    old_paths: Vec<PathOutcome>,
    new_paths: Vec<PathOutcome>,
    old_params: Vec<PossibleSolutions>,
    new_params: Vec<PossibleSolutions>,
) -> ComparisonResult {
    let (old_module, new_module) = u8_pair();
    analyze_fn(
        &old_module,
        &new_module,
        &old_name(),
        &new_name(),
        old_paths,
        new_paths,
        &old_params,
        &new_params,
    )
}

#[test]
fn identical_single_path_functions_are_equivalent() {
    let r = run_oracle(
        vec![ret(&["00000101"])],
        vec![ret(&["00000101"])],
        vec![exactly(&["00000001"])],
        vec![exactly(&["00000001"])],
    );
    assert!(matches!(r, ComparisonResult::Equivalent));
}

#[test]
fn residue_mapping_is_equivalent_across_the_rewrite() {
    // Both sides map an 8-bit input's residue to the four constants 0 to 3,
    // one explored path per residue class; each side's input parameter can
    // take the same residues. With the bound at least 4, the verdict is
    // equivalent.
    let outcomes = || {
        vec![
            ret(&["00000000"]),
            ret(&["00000001"]),
            ret(&["00000010"]),
            ret(&["00000011"]),
        ]
    };
    let params = || vec![exactly(&["00000000", "00000001", "00000010", "00000011"])];
    let r = run_oracle(outcomes(), outcomes(), params(), params());
    assert!(matches!(r, ComparisonResult::Equivalent));
}

#[test]
fn changed_constant_is_not_equivalent() {
    // The reference returns 0 where the candidate returns 1: the verdict
    // cites the unmatched reference outcome as the counterexample.
    let r = run_oracle(
        vec![ret(&["00000000"])],
        vec![ret(&["00000001"])],
        vec![exactly(&["00000000"])],
        vec![exactly(&["00000000"])],
    );
    match r {
        ComparisonResult::NotEquivalent { counterexample } => match counterexample {
            Outcome::Return(PossibleSolutions::Exactly(sols)) => {
                assert_eq!(sols.len(), 1);
                assert_eq!(sols[0].bits, b"00000000".to_vec());
            }
            _ => panic!("the counterexample should be the reference return outcome"),
        },
        _ => panic!("a changed constant must not be judged equivalent"),
    }
}

#[test]
fn matching_returns_without_shared_input_are_not_equivalent() {
    let r = run_oracle(
        vec![ret(&["00000000"])],
        vec![ret(&["00000000"])],
        vec![exactly(&["00000001"])],
        vec![exactly(&["00000010"])],
    );
    assert!(matches!(r, ComparisonResult::NotEquivalent { .. }));
}

#[test]
fn complexity_ceiling_on_old_side_is_inconclusive() {
    // The reference return value takes more values than the bound allows:
    // the pair is undecidable, never silently sampled.
    let r = run_oracle(
        vec![PathOutcome::Return(PossibleSolutions::AtLeast)],
        vec![ret(&["00000000"])],
        vec![exactly(&["00000000"])],
        vec![exactly(&["00000000"])],
    );
    match r {
        ComparisonResult::Inconclusive {
            reason: Diagnosis::ComplexityExceeded { function },
        } => {
            assert_eq!(function, b"old::foo".to_vec());
        }
        _ => panic!("a return value over the bound must be inconclusive"),
    }
}

#[test]
fn complexity_ceiling_on_new_side_is_inconclusive() {
    let r = run_oracle(
        vec![ret(&["00000000"])],
        vec![PathOutcome::Return(PossibleSolutions::AtLeast)],
        vec![exactly(&["00000000"])],
        vec![exactly(&["00000000"])],
    );
    match r {
        ComparisonResult::Inconclusive {
            reason: Diagnosis::ComplexityExceeded { function },
        } => {
            assert_eq!(function, b"new::foo".to_vec());
        }
        _ => panic!("a return value over the bound must be inconclusive"),
    }
}

#[test]
fn complexity_ceiling_on_a_parameter_is_inconclusive() {
    let r = run_oracle(
        vec![ret(&["00000000"])],
        vec![ret(&["00000000"])],
        vec![PossibleSolutions::AtLeast],
        vec![exactly(&["00000000"])],
    );
    match r {
        ComparisonResult::Inconclusive {
            reason: Diagnosis::ComplexityExceeded { function },
        } => {
            assert_eq!(function, b"old::foo".to_vec());
        }
        _ => panic!("a parameter over the bound must be inconclusive"),
    }
}

#[test]
fn differing_return_widths_are_inconclusive() {
    let old_module = single(decl("old::foo", &["i32"], RetType::Sized { bits: 32 }));
    let new_module = single(decl("new::foo", &["i8"], RetType::Sized { bits: 8 }));
    let r = analyze_fn(
        &old_module,
        &new_module,
        &old_name(),
        &new_name(),
        vec![ret(&["0"])],
        vec![ret(&["0"])],
        &vec![exactly(&["0"])],
        &vec![exactly(&["0"])],
    );
    assert!(matches!(
        r,
        ComparisonResult::Inconclusive { reason: Diagnosis::ReturnWidthsDiffer }
    ));
}

#[test]
fn void_return_type_is_inconclusive() {
    let old_module = single(decl("old::foo", &[], RetType::Void));
    let new_module = single(decl("new::foo", &[], RetType::Sized { bits: 8 }));
    let r = analyze_fn(
        &old_module,
        &new_module,
        &old_name(),
        &new_name(),
        vec![],
        vec![],
        &vec![],
        &vec![],
    );
    assert!(matches!(
        r,
        ComparisonResult::Inconclusive { reason: Diagnosis::VoidReturn { .. } }
    ));
}

#[test]
fn opaque_return_type_is_inconclusive() {
    let old_module = single(decl("old::foo", &[], RetType::Opaque));
    let new_module = single(decl("new::foo", &[], RetType::Sized { bits: 8 }));
    let r = analyze_fn(
        &old_module,
        &new_module,
        &old_name(),
        &new_name(),
        vec![],
        vec![],
        &vec![],
        &vec![],
    );
    assert!(matches!(
        r,
        ComparisonResult::Inconclusive { reason: Diagnosis::OpaqueReturn { .. } }
    ));
}

#[test]
fn zero_width_return_type_is_inconclusive() {
    let old_module = single(decl("old::foo", &[], RetType::Sized { bits: 0 }));
    let new_module = single(decl("new::foo", &[], RetType::Sized { bits: 8 }));
    let r = analyze_fn(
        &old_module,
        &new_module,
        &old_name(),
        &new_name(),
        vec![],
        vec![],
        &vec![],
        &vec![],
    );
    assert!(matches!(
        r,
        ComparisonResult::Inconclusive { reason: Diagnosis::ZeroWidthReturn { .. } }
    ));
}

#[test]
fn missing_function_is_inconclusive() {
    let old_module = Module { fns: vec![] };
    let new_module = single(decl("new::foo", &[], RetType::Sized { bits: 8 }));
    let r = analyze_fn(
        &old_module,
        &new_module,
        &old_name(),
        &new_name(),
        vec![],
        vec![],
        &vec![],
        &vec![],
    );
    assert!(matches!(
        r,
        ComparisonResult::Inconclusive { reason: Diagnosis::FunctionMissing { .. } }
    ));
}

#[test]
fn new_side_paths_are_screened_before_old_side_paths() {
    // The candidate's sequence is drained first, so its diagnosis wins.
    let r = run_oracle(
        vec![PathOutcome::ReturnVoid],
        vec![PathOutcome::LoopBound],
        vec![exactly(&["0"])],
        vec![exactly(&["0"])],
    );
    assert!(matches!(
        r,
        ComparisonResult::Inconclusive { reason: Diagnosis::ExplorationLimitExceeded }
    ));
}

#[test]
fn unexpected_void_outcome_is_inconclusive() {
    let r = run_oracle(
        vec![PathOutcome::ReturnVoid],
        vec![ret(&["0"])],
        vec![exactly(&["0"])],
        vec![exactly(&["0"])],
    );
    assert!(matches!(
        r,
        ComparisonResult::Inconclusive { reason: Diagnosis::UnexpectedVoidOutcome }
    ));
}

#[test]
fn exploration_limit_is_inconclusive() {
    let r = run_oracle(
        vec![PathOutcome::LoopBound],
        vec![ret(&["0"])],
        vec![exactly(&["0"])],
        vec![exactly(&["0"])],
    );
    assert!(matches!(
        r,
        ComparisonResult::Inconclusive { reason: Diagnosis::ExplorationLimitExceeded }
    ));
}

#[test]
fn engine_failure_is_inconclusive() {
    let r = run_oracle(
        vec![PathOutcome::Failed],
        vec![ret(&["0"])],
        vec![exactly(&["0"])],
        vec![exactly(&["0"])],
    );
    assert!(matches!(
        r,
        ComparisonResult::Inconclusive { reason: Diagnosis::EngineFailure }
    ));
}

#[test]
fn exceptional_outcome_kinds_are_unsupported() {
    let r = run_oracle(
        vec![PathOutcome::Throw],
        vec![PathOutcome::Throw],
        vec![exactly(&["0"])],
        vec![exactly(&["0"])],
    );
    assert!(matches!(
        r,
        ComparisonResult::Inconclusive { reason: Diagnosis::UnsupportedOutcome }
    ));
}

#[test]
fn differing_outcome_kinds_do_not_match() {
    let r = run_oracle(
        vec![PathOutcome::Throw],
        vec![ret(&["0"])],
        vec![exactly(&["0"])],
        vec![exactly(&["0"])],
    );
    assert!(matches!(r, ComparisonResult::NotEquivalent { .. }));
}

#[test]
fn no_old_outcomes_is_equivalent() {
    let r = run_oracle(vec![], vec![ret(&["0"])], vec![], vec![]);
    assert!(matches!(r, ComparisonResult::Equivalent));
}

#[test]
fn every_candidate_outcome_is_scanned_for_a_match() {
    // The matching outcome need not be the first candidate outcome.
    let r = run_oracle(
        vec![ret(&["00000000"])],
        vec![ret(&["00000001"]), ret(&["00000000"])],
        vec![exactly(&["00000000"])],
        vec![exactly(&["00000000"])],
    );
    assert!(matches!(r, ComparisonResult::Equivalent));
}

#[test]
fn every_reference_outcome_must_find_a_match() {
    // The second reference outcome has no counterpart and is cited.
    let r = run_oracle(
        vec![ret(&["00000000"]), ret(&["00000001"])],
        vec![ret(&["00000000"])],
        vec![exactly(&["00000000"])],
        vec![exactly(&["00000000"])],
    );
    match r {
        ComparisonResult::NotEquivalent { counterexample } => match counterexample {
            Outcome::Return(PossibleSolutions::Exactly(sols)) => {
                assert_eq!(sols.len(), 1);
                assert_eq!(sols[0].bits, b"00000001".to_vec());
            }
            _ => panic!("the counterexample should be the unmatched reference outcome"),
        },
        _ => panic!("an unmatched reference outcome must not be judged equivalent"),
    }
}

#[test]
fn widened_solution_sets_intersect_on_the_shared_value() {
    // The candidate's path can also return values the reference never
    // produces; a shared value and a shared input still witness a match.
    let r = run_oracle(
        vec![ret(&["00000010"])],
        vec![ret(&["00000001", "00000010", "00000011"])],
        vec![exactly(&["00000100", "00000101"])],
        vec![exactly(&["00000101", "00000110"])],
    );
    assert!(matches!(r, ComparisonResult::Equivalent));
}
