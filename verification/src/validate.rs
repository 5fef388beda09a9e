//! The precondition validator: before a matched pair is handed to the
//! equivalence oracle, its two functions must be structurally comparable.
//!
//! The checks run in order and stop at the first failure: equal parameter
//! counts, pairwise structural equality of the parameter type descriptors,
//! and a non-void return type on both sides (a void-returning function can
//! only be compared vacuously).

use vstd::prelude::*;

use crate::bytes::bytes_eq;
use crate::bytes::copy_bytes;
use crate::outcome::Diagnosis;
use crate::outcome::DiagnosisView;
use crate::program::FuncDecl;
use crate::program::FuncDeclView;
use crate::program::Module;
use crate::program::RetType;
use crate::program::TypeDesc;
use crate::program::lookup_spec;

verus! {

/// What validating the two signatures answers: the first failed check, or
/// success.
pub open spec fn check_signatures_spec(
    oldfn: FuncDeclView,
    newfn: FuncDeclView,
    oldfn_name: Seq<u8>,
    newfn_name: Seq<u8>,
) -> Result<(), DiagnosisView> {
    if oldfn.params.len() != newfn.params.len() {
        Err(DiagnosisView::ParamCountMismatch { function: oldfn_name })
    } else if oldfn.params != newfn.params {
        Err(DiagnosisView::ParamTypeMismatch { function: oldfn_name })
    } else if oldfn.ret is Void {
        Err(DiagnosisView::VoidReturn { function: oldfn_name })
    } else if newfn.ret is Void {
        Err(DiagnosisView::VoidReturn { function: newfn_name })
    } else {
        Ok(())
    }
}

/// What validating a matched pair answers: both names must resolve in their
/// modules, and the two signatures must pass `check_signatures_spec`.
pub open spec fn check_preconditions_spec(
    old_module: Seq<FuncDeclView>,
    new_module: Seq<FuncDeclView>,
    oldfn_name: Seq<u8>,
    newfn_name: Seq<u8>,
) -> Result<(), DiagnosisView> {
    match lookup_spec(old_module, oldfn_name) {
        None => Err(DiagnosisView::FunctionMissing { function: oldfn_name }),
        Some(i) => match lookup_spec(new_module, newfn_name) {
            None => Err(DiagnosisView::FunctionMissing { function: newfn_name }),
            Some(j) => check_signatures_spec(
                old_module[i],
                new_module[j],
                oldfn_name,
                newfn_name,
            ),
        },
    }
}

/// Returns true exactly when the two parameter lists carry the same type
/// descriptors, position by position.
fn params_equal(a: &Vec<TypeDesc>, b: &Vec<TypeDesc>) -> (r: bool)
    requires
        a@.len() == b@.len(),
    ensures
        r == (a@.map_values(|t: TypeDesc| t@) == b@.map_values(|t: TypeDesc| t@)),
{
    let ghost av = a@.map_values(|t: TypeDesc| t@);
    let ghost bv = b@.map_values(|t: TypeDesc| t@);
    let mut i: usize = 0;
    while i < a.len()
        invariant
            i <= a@.len(),
            a@.len() == b@.len(),
            av == a@.map_values(|t: TypeDesc| t@),
            bv == b@.map_values(|t: TypeDesc| t@),
            forall|j: int| 0 <= j < i ==> av[j] == bv[j],
        decreases a@.len() - i,
    {
        if !bytes_eq(&a[i].repr, &b[i].repr) {
            assert(av[i as int] != bv[i as int]);
            return false;
        }
        i += 1;
    }
    assert(av =~= bv);
    true
}

/// Validates a matched pair of function names against the two modules:
/// resolves both names, then checks parameter count, pairwise parameter
/// types, and non-void returns, reporting the first failure.
pub fn check_preconditions(
    old_module: &Module,
    new_module: &Module,
    oldfn_name: &Vec<u8>,
    newfn_name: &Vec<u8>,
) -> (r: Result<(), Diagnosis>)
    ensures
        (match r {
            Ok(u) => Ok::<(), DiagnosisView>(u),
            Err(d) => Err(d@),
        }) == check_preconditions_spec(old_module@, new_module@, oldfn_name@, newfn_name@),
{
    let oldfn_idx = match old_module.lookup(oldfn_name) {
        None => {
            return Err(Diagnosis::FunctionMissing { function: copy_bytes(oldfn_name) });
        },
        Some(i) => i,
    };
    let newfn_idx = match new_module.lookup(newfn_name) {
        None => {
            return Err(Diagnosis::FunctionMissing { function: copy_bytes(newfn_name) });
        },
        Some(j) => j,
    };
    let oldfn: &FuncDecl = &old_module.fns[oldfn_idx];
    let newfn: &FuncDecl = &new_module.fns[newfn_idx];
    assert(oldfn@ == old_module@[oldfn_idx as int]);
    assert(newfn@ == new_module@[newfn_idx as int]);
    if oldfn.params.len() != newfn.params.len() {
        return Err(Diagnosis::ParamCountMismatch { function: copy_bytes(oldfn_name) });
    }
    if !params_equal(&oldfn.params, &newfn.params) {
        return Err(Diagnosis::ParamTypeMismatch { function: copy_bytes(oldfn_name) });
    }
    if matches!(oldfn.ret, RetType::Void) {
        return Err(Diagnosis::VoidReturn { function: copy_bytes(oldfn_name) });
    }
    if matches!(newfn.ret, RetType::Void) {
        return Err(Diagnosis::VoidReturn { function: copy_bytes(newfn_name) });
    }
    Ok(())
}

/// A void-returning function on either side is reported as vacuous,
/// whatever the other side's return type: once the parameter checks pass,
/// validation fails with the void-return diagnosis, naming the old function
/// where it is void and the new function otherwise.
pub proof fn lemma_void_return_vacuous(
    oldfn: FuncDeclView,
    newfn: FuncDeclView,
    oldfn_name: Seq<u8>,
    newfn_name: Seq<u8>,
)
    requires
        oldfn.params == newfn.params,
        oldfn.ret is Void || newfn.ret is Void,
    ensures
        oldfn.ret is Void ==> check_signatures_spec(oldfn, newfn, oldfn_name, newfn_name)
            == Err::<(), DiagnosisView>(DiagnosisView::VoidReturn { function: oldfn_name }),
        !(oldfn.ret is Void) ==> check_signatures_spec(oldfn, newfn, oldfn_name, newfn_name)
            == Err::<(), DiagnosisView>(DiagnosisView::VoidReturn { function: newfn_name }),
{
}

/// Two signatures with different parameter counts are rejected for that
/// reason, before anything else is looked at.
pub proof fn lemma_param_count_mismatch(
    oldfn: FuncDeclView,
    newfn: FuncDeclView,
    oldfn_name: Seq<u8>,
    newfn_name: Seq<u8>,
)
    requires
        oldfn.params.len() != newfn.params.len(),
    ensures
        check_signatures_spec(oldfn, newfn, oldfn_name, newfn_name)
            == Err::<(), DiagnosisView>(DiagnosisView::ParamCountMismatch { function: oldfn_name }),
{
}

} // verus!
