//! The precondition validator: structural comparability of a matched pair.

use eqcheck::outcome::Diagnosis;
use eqcheck::program::{FuncDecl, Module, RetType, TypeDesc};
use eqcheck::validate::check_preconditions;

fn decl(name: &str, params: &[&str], ret: RetType) -> FuncDecl {
    FuncDecl {
        name: name.as_bytes().to_vec(),
        params: params
            .iter()
            .map(|p| TypeDesc { repr: p.as_bytes().to_vec() })
            .collect(),
        ret,
    }
}

fn single(f: FuncDecl) -> Module {
    Module { fns: vec![f] }
}

#[test]
fn validator_accepts_equal_signatures() {
    let old_module = single(decl("old::foo", &["i32"], RetType::Sized { bits: 32 }));
    let new_module = single(decl("new::foo", &["i32"], RetType::Sized { bits: 32 }));
    let r = check_preconditions(
        &old_module,
        &new_module,
        &b"old::foo".to_vec(),
        &b"new::foo".to_vec(),
    );
    assert!(r.is_ok());
}

#[test]
fn validator_rejects_differing_parameter_counts() {
    // One u32 parameter against two: the mismatch reason cites the count.
    let old_module = single(decl("old::foo", &["i32"], RetType::Sized { bits: 32 }));
    let new_module = single(decl("new::foo", &["i32", "i32"], RetType::Sized { bits: 32 }));
    let r = check_preconditions(
        &old_module,
        &new_module,
        &b"old::foo".to_vec(),
        &b"new::foo".to_vec(),
    );
    match r {
        Err(Diagnosis::ParamCountMismatch { function }) => {
            assert_eq!(function, b"old::foo".to_vec());
        }
        other => panic!("expected a parameter-count mismatch, got {:?}", result_kind(&other)),
    }
}

#[test]
fn validator_rejects_differing_parameter_types() {
    let old_module = single(decl("old::foo", &["i32"], RetType::Sized { bits: 32 }));
    let new_module = single(decl("new::foo", &["i64"], RetType::Sized { bits: 32 }));
    let r = check_preconditions(
        &old_module,
        &new_module,
        &b"old::foo".to_vec(),
        &b"new::foo".to_vec(),
    );
    match r {
        Err(Diagnosis::ParamTypeMismatch { function }) => {
            assert_eq!(function, b"old::foo".to_vec());
        }
        other => panic!("expected a parameter-type mismatch, got {:?}", result_kind(&other)),
    }
}

#[test]
fn validator_rejects_void_return_on_old_side() {
    // A void-returning function on either side is vacuous, whatever the
    // other side returns.
    let old_module = single(decl("old::foo", &["i32"], RetType::Void));
    let new_module = single(decl("new::foo", &["i32"], RetType::Sized { bits: 32 }));
    let r = check_preconditions(
        &old_module,
        &new_module,
        &b"old::foo".to_vec(),
        &b"new::foo".to_vec(),
    );
    match r {
        Err(Diagnosis::VoidReturn { function }) => {
            assert_eq!(function, b"old::foo".to_vec());
        }
        other => panic!("expected a void-return diagnosis, got {:?}", result_kind(&other)),
    }
}

#[test]
fn validator_rejects_void_return_on_new_side() {
    let old_module = single(decl("old::foo", &["i32"], RetType::Sized { bits: 32 }));
    let new_module = single(decl("new::foo", &["i32"], RetType::Void));
    let r = check_preconditions(
        &old_module,
        &new_module,
        &b"old::foo".to_vec(),
        &b"new::foo".to_vec(),
    );
    match r {
        Err(Diagnosis::VoidReturn { function }) => {
            assert_eq!(function, b"new::foo".to_vec());
        }
        other => panic!("expected a void-return diagnosis, got {:?}", result_kind(&other)),
    }
}

#[test]
fn validator_checks_parameter_count_before_void_return() {
    let old_module = single(decl("old::foo", &[], RetType::Void));
    let new_module = single(decl("new::foo", &["i32"], RetType::Void));
    let r = check_preconditions(
        &old_module,
        &new_module,
        &b"old::foo".to_vec(),
        &b"new::foo".to_vec(),
    );
    match r {
        Err(Diagnosis::ParamCountMismatch { function }) => {
            assert_eq!(function, b"old::foo".to_vec());
        }
        other => panic!("expected a parameter-count mismatch, got {:?}", result_kind(&other)),
    }
}

#[test]
fn validator_reports_missing_function() {
    let old_module = Module { fns: vec![] };
    let new_module = single(decl("new::foo", &["i32"], RetType::Sized { bits: 32 }));
    let r = check_preconditions(
        &old_module,
        &new_module,
        &b"old::foo".to_vec(),
        &b"new::foo".to_vec(),
    );
    match r {
        Err(Diagnosis::FunctionMissing { function }) => {
            assert_eq!(function, b"old::foo".to_vec());
        }
        other => panic!("expected a missing-function diagnosis, got {:?}", result_kind(&other)),
    }
}

fn result_kind(r: &Result<(), Diagnosis>) -> &'static str {
    match r {
        Ok(()) => "success",
        Err(Diagnosis::FunctionMissing { .. }) => "function missing",
        Err(Diagnosis::ParamCountMismatch { .. }) => "parameter-count mismatch",
        Err(Diagnosis::ParamTypeMismatch { .. }) => "parameter-type mismatch",
        Err(Diagnosis::VoidReturn { .. }) => "void return",
        Err(_) => "another diagnosis",
    }
}
