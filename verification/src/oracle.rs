//! The equivalence oracle: given a validated pair and the engine's account
//! of both functions — one outcome per explored path, with every return
//! value and every parameter resolved into its bounded solution set — decide
//! whether the candidate behaves as the reference does.
//!
//! The rule, for every old outcome: some new outcome of the same kind must
//! exist whose return-value solution set shares a concrete value with the
//! old one, and at least one pair of parameter positions must share a
//! concrete input value to witness reachability. An old outcome with no such
//! counterpart is the counterexample; a solution set cut short by the
//! complexity bound makes the pair undecidable rather than silently sampled.

use vstd::prelude::*;

use crate::bytes::bytes_eq;
use crate::bytes::copy_bytes;
use crate::outcome::Diagnosis;
use crate::outcome::DiagnosisView;
use crate::outcome::ComparisonResult;
use crate::outcome::ComparisonResultView;
use crate::outcome::Outcome;
use crate::outcome::OutcomeView;
use crate::outcome::PathOutcome;
use crate::outcome::PathOutcomeView;
use crate::outcome::PossibleSolutions;
use crate::outcome::PossibleSolutionsView;
use crate::outcome::Solution;
use crate::outcome::sols_view;
use crate::program::FuncDecl;
use crate::program::FuncDeclView;
use crate::program::Module;
use crate::program::RetType;
use crate::program::lookup_spec;

verus! {

/// The views of a list of path outcomes, in order.
pub open spec fn paths_view(v: Seq<PathOutcome>) -> Seq<PathOutcomeView> {
    v.map_values(|p: PathOutcome| p@)
}

/// The views of a list of screened outcomes, in order.
pub open spec fn outcomes_view(v: Seq<Outcome>) -> Seq<OutcomeView> {
    v.map_values(|o: Outcome| o@)
}

/// The views of a list of parameter solution sets, in order.
pub open spec fn params_view(v: Seq<PossibleSolutions>) -> Seq<PossibleSolutionsView> {
    v.map_values(|s: PossibleSolutions| s@)
}

/// The return-value width owed to a function, or why none is available:
/// void and opaque return types cannot be compared, and a zero-width return
/// type is rejected as malformed.
pub open spec fn check_rval_spec(f: FuncDeclView) -> Result<u32, DiagnosisView> {
    match f.ret {
        RetType::Void => Err(DiagnosisView::VoidReturn { function: f.name }),
        RetType::Opaque => Err(DiagnosisView::OpaqueReturn { function: f.name }),
        RetType::Sized { bits } => {
            if bits == 0 {
                Err(DiagnosisView::ZeroWidthReturn { function: f.name })
            } else {
                Ok(bits)
            }
        },
    }
}

/// How one reported path outcome is screened: the comparable kinds pass,
/// anything else is the pair's diagnosis.
pub open spec fn screen_outcome_spec(p: PathOutcomeView) -> Result<OutcomeView, DiagnosisView> {
    match p {
        PathOutcomeView::Return(s) => Ok(OutcomeView::Return(s)),
        PathOutcomeView::Throw => Ok(OutcomeView::Throw),
        PathOutcomeView::Abort => Ok(OutcomeView::Abort),
        PathOutcomeView::ReturnVoid => Err(DiagnosisView::UnexpectedVoidOutcome),
        PathOutcomeView::LoopBound => Err(DiagnosisView::ExplorationLimitExceeded),
        PathOutcomeView::Failed => Err(DiagnosisView::EngineFailure),
    }
}

/// Screening a whole outcome sequence keeps every outcome, in order, unless
/// some path fails to screen; the first failure is the answer.
pub open spec fn screen_outcomes_spec(
    ps: Seq<PathOutcomeView>,
) -> Result<Seq<OutcomeView>, DiagnosisView>
    decreases ps.len(),
{
    if ps.len() == 0 {
        Ok(Seq::empty())
    } else {
        match screen_outcome_spec(ps[0]) {
            Err(d) => Err(d),
            Ok(o) => match screen_outcomes_spec(ps.drop_first()) {
                Err(d) => Err(d),
                Ok(rest) => Ok(seq![o] + rest),
            },
        }
    }
}

/// The concrete values of one solution set, or the complexity diagnosis
/// naming the function whose value could not be enumerated within the bound.
pub open spec fn solutions_spec(
    fn_name: Seq<u8>,
    s: PossibleSolutionsView,
) -> Result<Seq<Seq<u8>>, DiagnosisView> {
    match s {
        PossibleSolutionsView::AtLeast => {
            Err(DiagnosisView::ComplexityExceeded { function: fn_name })
        },
        PossibleSolutionsView::Exactly(vs) => Ok(vs),
    }
}

/// Whether the two solution sets share a concrete value.
pub open spec fn sets_intersect(a: Seq<Seq<u8>>, b: Seq<Seq<u8>>) -> bool {
    exists|i: int, j: int| 0 <= i < a.len() && 0 <= j < b.len() && a[i] == b[j]
}

/// The scan of the new-side parameters against one old parameter's solution
/// set: resolved in order, and the first set sharing a value answers true.
pub open spec fn param_inner_spec(
    newfn_name: Seq<u8>,
    old_sols: Seq<Seq<u8>>,
    new_params: Seq<PossibleSolutionsView>,
) -> Result<bool, DiagnosisView>
    decreases new_params.len(),
{
    if new_params.len() == 0 {
        Ok(false)
    } else {
        match solutions_spec(newfn_name, new_params[0]) {
            Err(d) => Err(d),
            Ok(new_sols) => {
                if sets_intersect(old_sols, new_sols) {
                    Ok(true)
                } else {
                    param_inner_spec(newfn_name, old_sols, new_params.drop_first())
                }
            },
        }
    }
}

/// The search for a shared concrete input: some old parameter's solution
/// set must share a value with some new parameter's, the old parameters
/// resolved in order and each scanned against the new ones in order.
pub open spec fn param_search_spec(
    oldfn_name: Seq<u8>,
    newfn_name: Seq<u8>,
    old_params: Seq<PossibleSolutionsView>,
    new_params: Seq<PossibleSolutionsView>,
) -> Result<bool, DiagnosisView>
    decreases old_params.len(),
{
    if old_params.len() == 0 {
        Ok(false)
    } else {
        match solutions_spec(oldfn_name, old_params[0]) {
            Err(d) => Err(d),
            Ok(old_sols) => match param_inner_spec(newfn_name, old_sols, new_params) {
                Err(d) => Err(d),
                Ok(true) => Ok(true),
                Ok(false) => param_search_spec(
                    oldfn_name,
                    newfn_name,
                    old_params.drop_first(),
                    new_params,
                ),
            },
        }
    }
}

/// How one old outcome compares against one new outcome. Matching return
/// outcomes must share a return value and a parameter value; exceptional
/// kinds have no deep-comparison rule yet; differing kinds do not match.
pub open spec fn compare_outcomes_spec(
    oldfn_name: Seq<u8>,
    newfn_name: Seq<u8>,
    o: OutcomeView,
    n: OutcomeView,
    old_params: Seq<PossibleSolutionsView>,
    new_params: Seq<PossibleSolutionsView>,
) -> Result<bool, DiagnosisView> {
    match (o, n) {
        (OutcomeView::Return(os), OutcomeView::Return(ns)) => {
            match solutions_spec(oldfn_name, os) {
                Err(d) => Err(d),
                Ok(old_sols) => match solutions_spec(newfn_name, ns) {
                    Err(d) => Err(d),
                    Ok(new_sols) => {
                        if sets_intersect(old_sols, new_sols) {
                            param_search_spec(oldfn_name, newfn_name, old_params, new_params)
                        } else {
                            Ok(false)
                        }
                    },
                },
            }
        },
        (OutcomeView::Throw, OutcomeView::Throw) => Err(DiagnosisView::UnsupportedOutcome),
        (OutcomeView::Abort, OutcomeView::Abort) => Err(DiagnosisView::UnsupportedOutcome),
        _ => Ok(false),
    }
}

/// One old outcome scanned against every new outcome: every comparison is
/// evaluated, the first failure is the answer, and otherwise the outcome
/// matched if any comparison answered true.
pub open spec fn search_new_spec(
    oldfn_name: Seq<u8>,
    newfn_name: Seq<u8>,
    o: OutcomeView,
    news: Seq<OutcomeView>,
    old_params: Seq<PossibleSolutionsView>,
    new_params: Seq<PossibleSolutionsView>,
) -> Result<bool, DiagnosisView>
    decreases news.len(),
{
    if news.len() == 0 {
        Ok(false)
    } else {
        match compare_outcomes_spec(oldfn_name, newfn_name, o, news[0], old_params, new_params) {
            Err(d) => Err(d),
            Ok(b) => match search_new_spec(
                oldfn_name,
                newfn_name,
                o,
                news.drop_first(),
                old_params,
                new_params,
            ) {
                Err(d) => Err(d),
                Ok(rest) => Ok(b || rest),
            },
        }
    }
}

/// The cross-matching rule over the two screened outcome sequences: the
/// first old outcome whose scan fails makes the pair undecidable, the first
/// without a match is the counterexample, and a pair where every old
/// outcome matched is equivalent.
pub open spec fn match_outcomes_spec(
    oldfn_name: Seq<u8>,
    newfn_name: Seq<u8>,
    olds: Seq<OutcomeView>,
    news: Seq<OutcomeView>,
    old_params: Seq<PossibleSolutionsView>,
    new_params: Seq<PossibleSolutionsView>,
) -> ComparisonResultView
    decreases olds.len(),
{
    if olds.len() == 0 {
        ComparisonResultView::Equivalent
    } else {
        match search_new_spec(oldfn_name, newfn_name, olds[0], news, old_params, new_params) {
            Err(d) => ComparisonResultView::Inconclusive { reason: d },
            Ok(false) => ComparisonResultView::NotEquivalent { counterexample: olds[0] },
            Ok(true) => match_outcomes_spec(
                oldfn_name,
                newfn_name,
                olds.drop_first(),
                news,
                old_params,
                new_params,
            ),
        }
    }
}

/// The oracle's whole answer for one validated pair: resolve both names,
/// compare the return widths, screen the new-side then the old-side outcome
/// sequence, and cross-match what remains.
pub open spec fn analyze_fn_spec(
    old_module: Seq<FuncDeclView>,
    new_module: Seq<FuncDeclView>,
    oldfn_name: Seq<u8>,
    newfn_name: Seq<u8>,
    old_paths: Seq<PathOutcomeView>,
    new_paths: Seq<PathOutcomeView>,
    old_params: Seq<PossibleSolutionsView>,
    new_params: Seq<PossibleSolutionsView>,
) -> ComparisonResultView {
    match lookup_spec(old_module, oldfn_name) {
        None => ComparisonResultView::Inconclusive {
            reason: DiagnosisView::FunctionMissing { function: oldfn_name },
        },
        Some(i) => match lookup_spec(new_module, newfn_name) {
            None => ComparisonResultView::Inconclusive {
                reason: DiagnosisView::FunctionMissing { function: newfn_name },
            },
            Some(j) => match check_rval_spec(old_module[i]) {
                Err(d) => ComparisonResultView::Inconclusive { reason: d },
                Ok(old_width) => match check_rval_spec(new_module[j]) {
                    Err(d) => ComparisonResultView::Inconclusive { reason: d },
                    Ok(new_width) => {
                        if old_width != new_width {
                            ComparisonResultView::Inconclusive {
                                reason: DiagnosisView::ReturnWidthsDiffer,
                            }
                        } else {
                            match screen_outcomes_spec(new_paths) {
                                Err(d) => ComparisonResultView::Inconclusive { reason: d },
                                Ok(news) => match screen_outcomes_spec(old_paths) {
                                    Err(d) => ComparisonResultView::Inconclusive { reason: d },
                                    Ok(olds) => match_outcomes_spec(
                                        oldfn_name,
                                        newfn_name,
                                        olds,
                                        news,
                                        old_params,
                                        new_params,
                                    ),
                                },
                            }
                        }
                    },
                },
            },
        },
    }
}

/// Resolves a function's return-value width, as `check_rval_spec` says.
pub fn check_rval(f: &FuncDecl) -> (r: Result<u32, Diagnosis>)
    ensures
        (match r {
            Ok(w) => Ok::<u32, DiagnosisView>(w),
            Err(d) => Err(d@),
        }) == check_rval_spec(f@),
{
    match f.ret {
        RetType::Void => Err(Diagnosis::VoidReturn { function: copy_bytes(&f.name) }),
        RetType::Opaque => Err(Diagnosis::OpaqueReturn { function: copy_bytes(&f.name) }),
        RetType::Sized { bits } => {
            if bits == 0 {
                Err(Diagnosis::ZeroWidthReturn { function: copy_bytes(&f.name) })
            } else {
                Ok(bits)
            }
        },
    }
}

/// Screens a whole reported outcome sequence, as `screen_outcomes_spec`
/// says: the comparable outcomes in order, or the first path that cannot be
/// compared.
#[verifier::loop_isolation(false)]
pub fn screen_outcomes(paths: Vec<PathOutcome>) -> (r: Result<Vec<Outcome>, Diagnosis>)
    ensures
        (match r {
            Ok(v) => Ok::<Seq<OutcomeView>, DiagnosisView>(outcomes_view(v@)),
            Err(d) => Err(d@),
        }) == screen_outcomes_spec(paths_view(paths@)),
{
    let ghost orig = paths_view(paths@);
    let mut remaining = paths;
    let mut out: Vec<Outcome> = Vec::new();
    proof {
        assert(outcomes_view(out@) =~= Seq::<OutcomeView>::empty());
        match screen_outcomes_spec(orig) {
            Ok(rest) => {
                assert(Seq::<OutcomeView>::empty() + rest =~= rest);
            },
            Err(_) => (),
        }
    }
    loop
        invariant
            screen_outcomes_spec(orig) == (match screen_outcomes_spec(
                paths_view(remaining@),
            ) {
                Err(d) => Err::<Seq<OutcomeView>, DiagnosisView>(d),
                Ok(rest) => Ok(outcomes_view(out@) + rest),
            }),
        decreases remaining@.len(),
    {
        if remaining.len() == 0 {
            proof {
                assert(paths_view(remaining@) =~= Seq::<PathOutcomeView>::empty());
                assert(outcomes_view(out@) + Seq::<OutcomeView>::empty() =~= outcomes_view(
                    out@,
                ));
            }
            return Ok(out);
        }
        let ghost before = paths_view(remaining@);
        let p = remaining.remove(0);
        let ghost pv = p@;
        proof {
            assert(before[0] == pv);
            assert(before.drop_first() =~= paths_view(remaining@));
        }
        let screened: Outcome = match p {
            PathOutcome::Return(s) => Outcome::Return(s),
            PathOutcome::Throw => Outcome::Throw,
            PathOutcome::Abort => Outcome::Abort,
            PathOutcome::ReturnVoid => {
                return Err(Diagnosis::UnexpectedVoidOutcome);
            },
            PathOutcome::LoopBound => {
                return Err(Diagnosis::ExplorationLimitExceeded);
            },
            PathOutcome::Failed => {
                return Err(Diagnosis::EngineFailure);
            },
        };
        let ghost sv = screened@;
        let ghost prior = outcomes_view(out@);
        out.push(screened);
        proof {
            assert(screen_outcome_spec(pv) == Ok::<OutcomeView, DiagnosisView>(sv));
            assert(outcomes_view(out@) =~= prior + seq![sv]);
            match screen_outcomes_spec(paths_view(remaining@)) {
                Ok(rest) => {
                    assert((prior + seq![sv]) + rest =~= prior + (seq![sv] + rest));
                },
                Err(_) => (),
            }
        }
    }
}

/// Returns true exactly when the two solution sets share a concrete value.
#[verifier::loop_isolation(false)]
pub fn intersects(a: &Vec<Solution>, b: &Vec<Solution>) -> (r: bool)
    ensures
        r == sets_intersect(sols_view(a@), sols_view(b@)),
{
    let ghost av = sols_view(a@);
    let ghost bv = sols_view(b@);
    let mut i: usize = 0;
    while i < a.len()
        invariant
            i <= a@.len(),
            forall|p: int, q: int| 0 <= p < i && 0 <= q < bv.len() ==> av[p] != bv[q],
        decreases a@.len() - i,
    {
        let mut j: usize = 0;
        while j < b.len()
            invariant
                i < a@.len(),
                j <= b@.len(),
                forall|q: int| 0 <= q < j ==> av[i as int] != bv[q],
            decreases b@.len() - j,
        {
            if bytes_eq(&a[i].bits, &b[j].bits) {
                assert(av[i as int] == bv[j as int]);
                assert(sets_intersect(av, bv)) by {
                    assert(0 <= i < av.len() && 0 <= j < bv.len() && av[i as int] == bv[
                        j as int
                    ]);
                }
                return true;
            }
            j += 1;
        }
        i += 1;
    }
    false
}

/// Searches for a shared concrete input value across the two parameter
/// lists, as `param_search_spec` says: some old parameter's solution set
/// must share a value with some new parameter's, unless a set was cut short
/// by the complexity bound.
#[verifier::loop_isolation(false)]
pub fn params_match(
    oldfn_name: &Vec<u8>,
    newfn_name: &Vec<u8>,
    old_params: &Vec<PossibleSolutions>,
    new_params: &Vec<PossibleSolutions>,
) -> (r: Result<bool, Diagnosis>)
    ensures
        (match r {
            Ok(b) => Ok::<bool, DiagnosisView>(b),
            Err(d) => Err(d@),
        }) == param_search_spec(
            oldfn_name@,
            newfn_name@,
            params_view(old_params@),
            params_view(new_params@),
        ),
{
    let ghost opv = params_view(old_params@);
    let ghost npv = params_view(new_params@);
    proof {
        assert(opv.skip(0) =~= opv);
    }
    let mut i: usize = 0;
    while i < old_params.len()
        invariant
            i <= opv.len(),
            param_search_spec(oldfn_name@, newfn_name@, opv, npv) == param_search_spec(
                oldfn_name@,
                newfn_name@,
                opv.skip(i as int),
                npv,
            ),
        decreases opv.len() - i,
    {
        let ghost osuffix = opv.skip(i as int);
        proof {
            assert(osuffix[0] == opv[i as int]);
            assert(osuffix.drop_first() =~= opv.skip(i as int + 1));
        }
        let old_sols: &Vec<Solution> = match &old_params[i] {
            PossibleSolutions::AtLeast => {
                return Err(Diagnosis::ComplexityExceeded { function: copy_bytes(oldfn_name) });
            },
            PossibleSolutions::Exactly(vs) => vs,
        };
        let ghost osols = sols_view(old_sols@);
        proof {
            assert(npv.skip(0) =~= npv);
        }
        let mut j: usize = 0;
        while j < new_params.len()
            invariant
                j <= npv.len(),
                param_inner_spec(newfn_name@, osols, npv) == param_inner_spec(
                    newfn_name@,
                    osols,
                    npv.skip(j as int),
                ),
            decreases npv.len() - j,
        {
            let ghost nsuffix = npv.skip(j as int);
            proof {
                assert(nsuffix[0] == npv[j as int]);
                assert(nsuffix.drop_first() =~= npv.skip(j as int + 1));
            }
            let new_sols: &Vec<Solution> = match &new_params[j] {
                PossibleSolutions::AtLeast => {
                    return Err(
                        Diagnosis::ComplexityExceeded { function: copy_bytes(newfn_name) },
                    );
                },
                PossibleSolutions::Exactly(vs) => vs,
            };
            if intersects(old_sols, new_sols) {
                return Ok(true);
            }
            j += 1;
        }
        proof {
            assert(npv.skip(npv.len() as int) =~= Seq::<PossibleSolutionsView>::empty());
        }
        i += 1;
    }
    proof {
        assert(opv.skip(opv.len() as int) =~= Seq::<PossibleSolutionsView>::empty());
    }
    Ok(false)
}

/// Compares one old outcome against one new outcome, as
/// `compare_outcomes_spec` says.
pub fn compare_outcomes(
    oldfn_name: &Vec<u8>,
    newfn_name: &Vec<u8>,
    o: &Outcome,
    n: &Outcome,
    old_params: &Vec<PossibleSolutions>,
    new_params: &Vec<PossibleSolutions>,
) -> (r: Result<bool, Diagnosis>)
    ensures
        (match r {
            Ok(b) => Ok::<bool, DiagnosisView>(b),
            Err(d) => Err(d@),
        }) == compare_outcomes_spec(
            oldfn_name@,
            newfn_name@,
            o@,
            n@,
            params_view(old_params@),
            params_view(new_params@),
        ),
{
    match (o, n) {
        (Outcome::Return(os), Outcome::Return(ns)) => {
            let old_sols: &Vec<Solution> = match os {
                PossibleSolutions::AtLeast => {
                    return Err(
                        Diagnosis::ComplexityExceeded { function: copy_bytes(oldfn_name) },
                    );
                },
                PossibleSolutions::Exactly(vs) => vs,
            };
            let new_sols: &Vec<Solution> = match ns {
                PossibleSolutions::AtLeast => {
                    return Err(
                        Diagnosis::ComplexityExceeded { function: copy_bytes(newfn_name) },
                    );
                },
                PossibleSolutions::Exactly(vs) => vs,
            };
            if intersects(old_sols, new_sols) {
                params_match(oldfn_name, newfn_name, old_params, new_params)
            } else {
                Ok(false)
            }
        },
        (Outcome::Throw, Outcome::Throw) => Err(Diagnosis::UnsupportedOutcome),
        (Outcome::Abort, Outcome::Abort) => Err(Diagnosis::UnsupportedOutcome),
        _ => Ok(false),
    }
}

/// Scans one old outcome against every new outcome, as `search_new_spec`
/// says: every comparison is evaluated, the first failure wins, and
/// otherwise the scan answers whether any comparison matched.
#[verifier::loop_isolation(false)]
pub fn search_new(
    oldfn_name: &Vec<u8>,
    newfn_name: &Vec<u8>,
    o: &Outcome,
    news: &Vec<Outcome>,
    old_params: &Vec<PossibleSolutions>,
    new_params: &Vec<PossibleSolutions>,
) -> (r: Result<bool, Diagnosis>)
    ensures
        (match r {
            Ok(b) => Ok::<bool, DiagnosisView>(b),
            Err(d) => Err(d@),
        }) == search_new_spec(
            oldfn_name@,
            newfn_name@,
            o@,
            outcomes_view(news@),
            params_view(old_params@),
            params_view(new_params@),
        ),
{
    let ghost nv = outcomes_view(news@);
    let ghost opv = params_view(old_params@);
    let ghost npv = params_view(new_params@);
    proof {
        assert(nv.skip(0) =~= nv);
    }
    let mut found = false;
    let mut j: usize = 0;
    while j < news.len()
        invariant
            j <= nv.len(),
            search_new_spec(oldfn_name@, newfn_name@, o@, nv, opv, npv) == (match search_new_spec(
                oldfn_name@,
                newfn_name@,
                o@,
                nv.skip(j as int),
                opv,
                npv,
            ) {
                Err(d) => Err::<bool, DiagnosisView>(d),
                Ok(b) => Ok(found || b),
            }),
        decreases nv.len() - j,
    {
        let ghost suffix = nv.skip(j as int);
        proof {
            assert(suffix[0] == nv[j as int]);
            assert(suffix.drop_first() =~= nv.skip(j as int + 1));
        }
        match compare_outcomes(oldfn_name, newfn_name, o, &news[j], old_params, new_params) {
            Err(d) => {
                return Err(d);
            },
            Ok(b) => {
                found = found || b;
            },
        }
        j += 1;
    }
    proof {
        assert(nv.skip(nv.len() as int) =~= Seq::<OutcomeView>::empty());
    }
    Ok(found)
}

/// Decides one validated pair from the engine's account of both functions,
/// as `analyze_fn_spec` says: resolve both names, compare return widths,
/// screen both outcome sequences, then cross-match every old outcome
/// against the new ones.
#[verifier::loop_isolation(false)]
pub fn analyze_fn(
    old_module: &Module,
    new_module: &Module,
    oldfn_name: &Vec<u8>,
    newfn_name: &Vec<u8>,
    old_paths: Vec<PathOutcome>,
    new_paths: Vec<PathOutcome>,
    old_params: &Vec<PossibleSolutions>,
    new_params: &Vec<PossibleSolutions>,
) -> (r: ComparisonResult)
    ensures
        r@ == analyze_fn_spec(
            old_module@,
            new_module@,
            oldfn_name@,
            newfn_name@,
            paths_view(old_paths@),
            paths_view(new_paths@),
            params_view(old_params@),
            params_view(new_params@),
        ),
{
    let oldfn_idx = match old_module.lookup(oldfn_name) {
        None => {
            return ComparisonResult::Inconclusive {
                reason: Diagnosis::FunctionMissing { function: copy_bytes(oldfn_name) },
            };
        },
        Some(i) => i,
    };
    let newfn_idx = match new_module.lookup(newfn_name) {
        None => {
            return ComparisonResult::Inconclusive {
                reason: Diagnosis::FunctionMissing { function: copy_bytes(newfn_name) },
            };
        },
        Some(j) => j,
    };
    let old_width = match check_rval(&old_module.fns[oldfn_idx]) {
        Err(d) => {
            return ComparisonResult::Inconclusive { reason: d };
        },
        Ok(w) => w,
    };
    let new_width = match check_rval(&new_module.fns[newfn_idx]) {
        Err(d) => {
            return ComparisonResult::Inconclusive { reason: d };
        },
        Ok(w) => w,
    };
    if old_width != new_width {
        return ComparisonResult::Inconclusive { reason: Diagnosis::ReturnWidthsDiffer };
    }
    let news = match screen_outcomes(new_paths) {
        Err(d) => {
            return ComparisonResult::Inconclusive { reason: d };
        },
        Ok(v) => v,
    };
    let olds = match screen_outcomes(old_paths) {
        Err(d) => {
            return ComparisonResult::Inconclusive { reason: d };
        },
        Ok(v) => v,
    };
    let ghost olds_orig = outcomes_view(olds@);
    let mut old_remaining = olds;
    loop
        invariant
            match_outcomes_spec(
                oldfn_name@,
                newfn_name@,
                olds_orig,
                outcomes_view(news@),
                params_view(old_params@),
                params_view(new_params@),
            ) == match_outcomes_spec(
                oldfn_name@,
                newfn_name@,
                outcomes_view(old_remaining@),
                outcomes_view(news@),
                params_view(old_params@),
                params_view(new_params@),
            ),
        decreases old_remaining@.len(),
    {
        if old_remaining.len() == 0 {
            proof {
                assert(outcomes_view(old_remaining@) =~= Seq::<OutcomeView>::empty());
            }
            return ComparisonResult::Equivalent;
        }
        let ghost before = outcomes_view(old_remaining@);
        let o = old_remaining.remove(0);
        proof {
            assert(before[0] == o@);
            assert(before.drop_first() =~= outcomes_view(old_remaining@));
        }
        match search_new(oldfn_name, newfn_name, &o, &news, old_params, new_params) {
            Err(d) => {
                return ComparisonResult::Inconclusive { reason: d };
            },
            Ok(false) => {
                return ComparisonResult::NotEquivalent { counterexample: o };
            },
            Ok(true) => (),
        }
    }
}

/// The concrete values of a fully enumerated solution set, and nothing of
/// a set that was cut short.
pub open spec fn exact_of(p: PossibleSolutionsView) -> Seq<Seq<u8>> {
    match p {
        PossibleSolutionsView::Exactly(vs) => vs,
        PossibleSolutionsView::AtLeast => Seq::empty(),
    }
}

/// Whether every solution set in the list was fully enumerated.
pub open spec fn all_params_exact(params: Seq<PossibleSolutionsView>) -> bool {
    forall|k: int| 0 <= k < params.len() ==> (#[trigger] params[k]) is Exactly
}

/// Whether the outcome is a return whose solution set was fully
/// enumerated.
pub open spec fn is_exact_return(o: OutcomeView) -> bool {
    o matches OutcomeView::Return(s) && s is Exactly
}

/// The return values of an outcome, where it is a fully enumerated return.
pub open spec fn return_solutions(o: OutcomeView) -> Seq<Seq<u8>> {
    match o {
        OutcomeView::Return(s) => exact_of(s),
        _ => Seq::empty(),
    }
}

/// Whether every outcome in the list is a fully enumerated return.
pub open spec fn all_exact_returns(outcomes: Seq<OutcomeView>) -> bool {
    forall|k: int| 0 <= k < outcomes.len() ==> is_exact_return(#[trigger] outcomes[k])
}

/// Whether some old parameter's solution set shares a concrete value with
/// some new parameter's: the reachability witness the matching rule asks
/// for.
pub open spec fn shares_param_value(
    old_params: Seq<PossibleSolutionsView>,
    new_params: Seq<PossibleSolutionsView>,
) -> bool {
    exists|k: int, j: int|
        0 <= k < old_params.len() && 0 <= j < new_params.len() && sets_intersect(
            exact_of(#[trigger] old_params[k]),
            exact_of(#[trigger] new_params[j]),
        )
}

/// With every new-side parameter set fully enumerated, the inner scan
/// cannot fail, and answers exactly whether some new parameter's set
/// shares a value with the given one.
proof fn lemma_param_inner_all_exact(
    newfn_name: Seq<u8>,
    old_sols: Seq<Seq<u8>>,
    new_params: Seq<PossibleSolutionsView>,
)
    requires
        all_params_exact(new_params),
    ensures
        param_inner_spec(newfn_name, old_sols, new_params) == Ok::<bool, DiagnosisView>(
            exists|j: int|
                0 <= j < new_params.len() && sets_intersect(
                    old_sols,
                    exact_of(#[trigger] new_params[j]),
                ),
        ),
    decreases new_params.len(),
{
    if new_params.len() == 0 {
    } else {
        let rest = new_params.drop_first();
        let e_full = exists|j: int|
            0 <= j < new_params.len() && sets_intersect(
                old_sols,
                exact_of(#[trigger] new_params[j]),
            );
        let e_rest = exists|j: int|
            0 <= j < rest.len() && sets_intersect(old_sols, exact_of(#[trigger] rest[j]));
        if sets_intersect(old_sols, exact_of(new_params[0])) {
            assert(e_full);
        } else {
            assert(all_params_exact(rest)) by {
                assert(forall|k: int| 0 <= k < rest.len() ==> rest[k] == new_params[k + 1]);
            }
            lemma_param_inner_all_exact(newfn_name, old_sols, rest);
            if e_full {
                let j = choose|j: int|
                    0 <= j < new_params.len() && sets_intersect(
                        old_sols,
                        exact_of(#[trigger] new_params[j]),
                    );
                assert(j != 0);
                assert(rest[j - 1] == new_params[j]);
                assert(e_rest);
            }
            if e_rest {
                let j = choose|j: int|
                    0 <= j < rest.len() && sets_intersect(old_sols, exact_of(#[trigger] rest[j]));
                assert(rest[j] == new_params[j + 1]);
                assert(e_full);
            }
        }
    }
}

/// With every parameter set on both sides fully enumerated, the parameter
/// search cannot fail, and answers exactly whether the two sides share a
/// concrete parameter value.
proof fn lemma_param_search_all_exact(
    oldfn_name: Seq<u8>,
    newfn_name: Seq<u8>,
    old_params: Seq<PossibleSolutionsView>,
    new_params: Seq<PossibleSolutionsView>,
)
    requires
        all_params_exact(old_params),
        all_params_exact(new_params),
    ensures
        param_search_spec(oldfn_name, newfn_name, old_params, new_params) == Ok::<
            bool,
            DiagnosisView,
        >(shares_param_value(old_params, new_params)),
    decreases old_params.len(),
{
    if old_params.len() == 0 {
    } else {
        let rest = old_params.drop_first();
        lemma_param_inner_all_exact(newfn_name, exact_of(old_params[0]), new_params);
        let e0 = exists|j: int|
            0 <= j < new_params.len() && sets_intersect(
                exact_of(old_params[0]),
                exact_of(#[trigger] new_params[j]),
            );
        if e0 {
            let j = choose|j: int|
                0 <= j < new_params.len() && sets_intersect(
                    exact_of(old_params[0]),
                    exact_of(#[trigger] new_params[j]),
                );
            assert(shares_param_value(old_params, new_params));
        } else {
            assert(all_params_exact(rest)) by {
                assert(forall|k: int| 0 <= k < rest.len() ==> rest[k] == old_params[k + 1]);
            }
            lemma_param_search_all_exact(oldfn_name, newfn_name, rest, new_params);
            if shares_param_value(old_params, new_params) {
                let (k, j) = choose|k: int, j: int|
                    0 <= k < old_params.len() && 0 <= j < new_params.len() && sets_intersect(
                        exact_of(#[trigger] old_params[k]),
                        exact_of(#[trigger] new_params[j]),
                    );
                assert(k != 0);
                assert(rest[k - 1] == old_params[k]);
                assert(shares_param_value(rest, new_params));
            }
            if shares_param_value(rest, new_params) {
                let (k, j) = choose|k: int, j: int|
                    0 <= k < rest.len() && 0 <= j < new_params.len() && sets_intersect(
                        exact_of(#[trigger] rest[k]),
                        exact_of(#[trigger] new_params[j]),
                    );
                assert(rest[k] == old_params[k + 1]);
                assert(shares_param_value(old_params, new_params));
            }
        }
    }
}

/// With a fully enumerated return outcome scanned against fully enumerated
/// new outcomes and parameters, the scan cannot fail, and answers exactly:
/// some new return value is shared, and some parameter value is shared.
proof fn lemma_search_new_all_exact(
    oldfn_name: Seq<u8>,
    newfn_name: Seq<u8>,
    o: OutcomeView,
    news: Seq<OutcomeView>,
    old_params: Seq<PossibleSolutionsView>,
    new_params: Seq<PossibleSolutionsView>,
)
    requires
        is_exact_return(o),
        all_exact_returns(news),
        all_params_exact(old_params),
        all_params_exact(new_params),
    ensures
        search_new_spec(oldfn_name, newfn_name, o, news, old_params, new_params) == Ok::<
            bool,
            DiagnosisView,
        >(
            (exists|m: int|
                0 <= m < news.len() && sets_intersect(
                    return_solutions(o),
                    return_solutions(#[trigger] news[m]),
                )) && shares_param_value(old_params, new_params),
        ),
    decreases news.len(),
{
    if news.len() == 0 {
    } else {
        let rest = news.drop_first();
        assert(all_exact_returns(rest)) by {
            assert(forall|k: int| 0 <= k < rest.len() ==> rest[k] == news[k + 1]);
        }
        if sets_intersect(return_solutions(o), return_solutions(news[0])) {
            lemma_param_search_all_exact(oldfn_name, newfn_name, old_params, new_params);
        }
        lemma_search_new_all_exact(oldfn_name, newfn_name, o, rest, old_params, new_params);
        let e_full = exists|m: int|
            0 <= m < news.len() && sets_intersect(
                return_solutions(o),
                return_solutions(#[trigger] news[m]),
            );
        let e_rest = exists|m: int|
            0 <= m < rest.len() && sets_intersect(
                return_solutions(o),
                return_solutions(#[trigger] rest[m]),
            );
        if e_rest {
            let m = choose|m: int|
                0 <= m < rest.len() && sets_intersect(
                    return_solutions(o),
                    return_solutions(#[trigger] rest[m]),
                );
            assert(rest[m] == news[m + 1]);
            assert(e_full);
        }
        if e_full && !sets_intersect(return_solutions(o), return_solutions(news[0])) {
            let m = choose|m: int|
                0 <= m < news.len() && sets_intersect(
                    return_solutions(o),
                    return_solutions(#[trigger] news[m]),
                );
            assert(m != 0);
            assert(rest[m - 1] == news[m]);
            assert(e_rest);
        }
    }
}

/// Where every old outcome's return values are shared by some new outcome,
/// and a parameter value is shared, the pair is equivalent.
proof fn lemma_all_matched_equivalent(
    oldfn_name: Seq<u8>,
    newfn_name: Seq<u8>,
    olds: Seq<OutcomeView>,
    news: Seq<OutcomeView>,
    old_params: Seq<PossibleSolutionsView>,
    new_params: Seq<PossibleSolutionsView>,
)
    requires
        all_exact_returns(olds),
        all_exact_returns(news),
        all_params_exact(old_params),
        all_params_exact(new_params),
        shares_param_value(old_params, new_params),
        forall|k: int|
            0 <= k < olds.len() ==> exists|m: int|
                0 <= m < news.len() && sets_intersect(
                    return_solutions(#[trigger] olds[k]),
                    return_solutions(#[trigger] news[m]),
                ),
    ensures
        match_outcomes_spec(oldfn_name, newfn_name, olds, news, old_params, new_params)
            == ComparisonResultView::Equivalent,
    decreases olds.len(),
{
    if olds.len() == 0 {
    } else {
        lemma_search_new_all_exact(oldfn_name, newfn_name, olds[0], news, old_params, new_params);
        assert(exists|m: int|
            0 <= m < news.len() && sets_intersect(
                return_solutions(olds[0]),
                return_solutions(#[trigger] news[m]),
            ));
        let rest = olds.drop_first();
        assert(all_exact_returns(rest) && forall|k: int|
            0 <= k < rest.len() ==> exists|m: int|
                0 <= m < news.len() && sets_intersect(
                    return_solutions(#[trigger] rest[k]),
                    return_solutions(#[trigger] news[m]),
                )) by {
            assert(forall|k: int| 0 <= k < rest.len() ==> rest[k] == olds[k + 1]);
        }
        lemma_all_matched_equivalent(oldfn_name, newfn_name, rest, news, old_params, new_params);
    }
}

/// Two functions with identical behaviour are judged equivalent: where the
/// engine reports the same outcome sequence and the same parameter solution
/// sets for both sides, every return value fully enumerated and non-empty,
/// and some parameter's set non-empty, the cross-matching rule answers
/// `Equivalent`.
pub proof fn lemma_identical_functions_equivalent(
    oldfn_name: Seq<u8>,
    newfn_name: Seq<u8>,
    outcomes: Seq<OutcomeView>,
    params: Seq<PossibleSolutionsView>,
)
    requires
        all_exact_returns(outcomes),
        forall|k: int|
            0 <= k < outcomes.len() ==> return_solutions(#[trigger] outcomes[k]).len() > 0,
        all_params_exact(params),
        exists|k: int| 0 <= k < params.len() && exact_of(#[trigger] params[k]).len() > 0,
    ensures
        match_outcomes_spec(oldfn_name, newfn_name, outcomes, outcomes, params, params)
            == ComparisonResultView::Equivalent,
{
    let k = choose|k: int| 0 <= k < params.len() && exact_of(#[trigger] params[k]).len() > 0;
    assert(sets_intersect(exact_of(params[k]), exact_of(params[k]))) by {
        assert(exact_of(params[k])[0] == exact_of(params[k])[0]);
    }
    assert(shares_param_value(params, params));
    assert(forall|k2: int|
        0 <= k2 < outcomes.len() ==> exists|m: int|
            0 <= m < outcomes.len() && sets_intersect(
                return_solutions(#[trigger] outcomes[k2]),
                return_solutions(#[trigger] outcomes[m]),
            )) by {
        assert forall|k2: int| 0 <= k2 < outcomes.len() implies exists|m: int|
            0 <= m < outcomes.len() && sets_intersect(
                return_solutions(#[trigger] outcomes[k2]),
                return_solutions(#[trigger] outcomes[m]),
            ) by {
            assert(sets_intersect(return_solutions(outcomes[k2]), return_solutions(outcomes[k2])))
                by {
                assert(return_solutions(outcomes[k2])[0] == return_solutions(outcomes[k2])[0]);
            }
        }
    }
    lemma_all_matched_equivalent(oldfn_name, newfn_name, outcomes, outcomes, params, params);
}

/// A reachable old return value that no new outcome shares makes the pair
/// not equivalent, and the counterexample carried is an old outcome whose
/// fully enumerated solution set intersects no new-side return solution
/// set.
pub proof fn lemma_unmatched_outcome_not_equivalent(
    oldfn_name: Seq<u8>,
    newfn_name: Seq<u8>,
    olds: Seq<OutcomeView>,
    news: Seq<OutcomeView>,
    old_params: Seq<PossibleSolutionsView>,
    new_params: Seq<PossibleSolutionsView>,
)
    requires
        all_exact_returns(olds),
        all_exact_returns(news),
        all_params_exact(old_params),
        all_params_exact(new_params),
        shares_param_value(old_params, new_params),
        exists|k: int|
            0 <= k < olds.len() && (forall|m: int|
                0 <= m < news.len() ==> !sets_intersect(
                    return_solutions(#[trigger] olds[k]),
                    return_solutions(#[trigger] news[m]),
                )),
    ensures
        exists|k: int|
            0 <= k < olds.len() && match_outcomes_spec(
                oldfn_name,
                newfn_name,
                olds,
                news,
                old_params,
                new_params,
            ) == (ComparisonResultView::NotEquivalent { counterexample: #[trigger] olds[k] })
                && (forall|m: int|
                0 <= m < news.len() ==> !sets_intersect(
                    return_solutions(olds[k]),
                    return_solutions(#[trigger] news[m]),
                )),
    decreases olds.len(),
{
    let kw = choose|k: int|
        0 <= k < olds.len() && (forall|m: int|
            0 <= m < news.len() ==> !sets_intersect(
                return_solutions(#[trigger] olds[k]),
                return_solutions(#[trigger] news[m]),
            ));
    lemma_search_new_all_exact(oldfn_name, newfn_name, olds[0], news, old_params, new_params);
    let e0 = exists|m: int|
        0 <= m < news.len() && sets_intersect(
            return_solutions(olds[0]),
            return_solutions(#[trigger] news[m]),
        );
    if !e0 {
        assert(match_outcomes_spec(oldfn_name, newfn_name, olds, news, old_params, new_params)
            == (ComparisonResultView::NotEquivalent { counterexample: olds[0] }));
        assert(forall|m: int|
            0 <= m < news.len() ==> !sets_intersect(
                return_solutions(olds[0]),
                return_solutions(#[trigger] news[m]),
            ));
    } else {
        let m0 = choose|m: int|
            0 <= m < news.len() && sets_intersect(
                return_solutions(olds[0]),
                return_solutions(#[trigger] news[m]),
            );
        assert(kw != 0);
        let rest = olds.drop_first();
        assert(forall|k: int| 0 <= k < rest.len() ==> rest[k] == olds[k + 1]);
        assert(all_exact_returns(rest));
        assert(rest[kw - 1] == olds[kw]);
        assert(exists|k: int|
            0 <= k < rest.len() && (forall|m: int|
                0 <= m < news.len() ==> !sets_intersect(
                    return_solutions(#[trigger] rest[k]),
                    return_solutions(#[trigger] news[m]),
                )));
        lemma_unmatched_outcome_not_equivalent(
            oldfn_name,
            newfn_name,
            rest,
            news,
            old_params,
            new_params,
        );
        let kr = choose|k: int|
            0 <= k < rest.len() && match_outcomes_spec(
                oldfn_name,
                newfn_name,
                rest,
                news,
                old_params,
                new_params,
            ) == (ComparisonResultView::NotEquivalent { counterexample: #[trigger] rest[k] })
                && (forall|m: int|
                0 <= m < news.len() ==> !sets_intersect(
                    return_solutions(rest[k]),
                    return_solutions(#[trigger] news[m]),
                ));
        assert(rest[kr] == olds[kr + 1]);
        assert(match_outcomes_spec(oldfn_name, newfn_name, olds, news, old_params, new_params)
            == (ComparisonResultView::NotEquivalent { counterexample: olds[kr + 1] }));
    }
}

/// A return value whose enumeration was cut short is never silently
/// sampled: where the first old outcome's solution set hit the complexity
/// bound and some new return outcome exists, the pair is undecidable, the
/// old function named in the reason.
pub proof fn lemma_complexity_ceiling_old(
    oldfn_name: Seq<u8>,
    newfn_name: Seq<u8>,
    olds: Seq<OutcomeView>,
    news: Seq<OutcomeView>,
    old_params: Seq<PossibleSolutionsView>,
    new_params: Seq<PossibleSolutionsView>,
)
    requires
        olds.len() > 0,
        olds[0] == OutcomeView::Return(PossibleSolutionsView::AtLeast),
        news.len() > 0,
        news[0] matches OutcomeView::Return(_),
    ensures
        match_outcomes_spec(oldfn_name, newfn_name, olds, news, old_params, new_params)
            == (ComparisonResultView::Inconclusive {
            reason: DiagnosisView::ComplexityExceeded { function: oldfn_name },
        }),
{
    assert(compare_outcomes_spec(oldfn_name, newfn_name, olds[0], news[0], old_params, new_params)
        == Err::<bool, DiagnosisView>(
        DiagnosisView::ComplexityExceeded { function: oldfn_name },
    ));
}

/// The complexity ceiling on the new side: where the first old outcome is
/// fully enumerated but the first new outcome's solution set hit the
/// bound, the pair is undecidable, the new function named in the reason.
pub proof fn lemma_complexity_ceiling_new(
    oldfn_name: Seq<u8>,
    newfn_name: Seq<u8>,
    olds: Seq<OutcomeView>,
    news: Seq<OutcomeView>,
    old_params: Seq<PossibleSolutionsView>,
    new_params: Seq<PossibleSolutionsView>,
)
    requires
        olds.len() > 0,
        olds[0] matches OutcomeView::Return(s) && s is Exactly,
        news.len() > 0,
        news[0] == OutcomeView::Return(PossibleSolutionsView::AtLeast),
    ensures
        match_outcomes_spec(oldfn_name, newfn_name, olds, news, old_params, new_params)
            == (ComparisonResultView::Inconclusive {
            reason: DiagnosisView::ComplexityExceeded { function: newfn_name },
        }),
{
    assert(compare_outcomes_spec(oldfn_name, newfn_name, olds[0], news[0], old_params, new_params)
        == Err::<bool, DiagnosisView>(
        DiagnosisView::ComplexityExceeded { function: newfn_name },
    ));
}

} // verus!
