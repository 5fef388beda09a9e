//! The observable results of analysing one function pair: the outcomes that
//! the symbolic execution engine reports for each explored path, the bounded
//! solution sets that its solver produces for a symbolic value, and the
//! diagnoses and verdicts that the checker derives from them.

use vstd::prelude::*;

verus! {

/// One concrete value of a symbolic bit-vector, in the solver's canonical
/// per-bit rendering. Two solutions denote the same concrete value exactly
/// when their renderings are equal byte for byte.
pub struct Solution {
    pub bits: Vec<u8>,
}

impl View for Solution {
    type V = Seq<u8>;

    open spec fn view(&self) -> Seq<u8> {
        self.bits@
    }
}

/// The values of a list of solutions, in order.
pub open spec fn sols_view(v: Seq<Solution>) -> Seq<Seq<u8>> {
    v.map_values(|s: Solution| s@)
}

/// The bounded solution set of one symbolic value, enumerated up to the
/// complexity bound: either every concrete value it can take, or the sentinel
/// that says the bound was reached before the enumeration was complete.
pub enum PossibleSolutions {
    /// The symbolic value takes exactly these concrete values.
    Exactly(Vec<Solution>),
    /// At least bound-many values exist; the enumeration was cut short, so
    /// no complete set is available.
    AtLeast,
}

/// Specification-level form of [`PossibleSolutions`].
pub enum PossibleSolutionsView {
    Exactly(Seq<Seq<u8>>),
    AtLeast,
}

impl View for PossibleSolutions {
    type V = PossibleSolutionsView;

    open spec fn view(&self) -> PossibleSolutionsView {
        match self {
            PossibleSolutions::Exactly(v) => PossibleSolutionsView::Exactly(sols_view(v@)),
            PossibleSolutions::AtLeast => PossibleSolutionsView::AtLeast,
        }
    }
}

/// What the engine reported for one explored path, with the return value (if
/// any) already resolved into its bounded solution set.
pub enum PathOutcome {
    /// The path returned a value; these are its possible concrete values.
    Return(PossibleSolutions),
    /// The path exited exceptionally. The payload is not compared.
    Throw,
    /// The path terminated without a recoverable result.
    Abort,
    /// The path returned void although the signature promises a value.
    ReturnVoid,
    /// The engine gave the path up because its loop-exploration bound was
    /// exceeded.
    LoopBound,
    /// The engine failed on this path for any other reason.
    Failed,
}

/// Specification-level form of [`PathOutcome`].
pub enum PathOutcomeView {
    Return(PossibleSolutionsView),
    Throw,
    Abort,
    ReturnVoid,
    LoopBound,
    Failed,
}

impl View for PathOutcome {
    type V = PathOutcomeView;

    open spec fn view(&self) -> PathOutcomeView {
        match self {
            PathOutcome::Return(s) => PathOutcomeView::Return(s@),
            PathOutcome::Throw => PathOutcomeView::Throw,
            PathOutcome::Abort => PathOutcomeView::Abort,
            PathOutcome::ReturnVoid => PathOutcomeView::ReturnVoid,
            PathOutcome::LoopBound => PathOutcomeView::LoopBound,
            PathOutcome::Failed => PathOutcomeView::Failed,
        }
    }
}

/// A well-formed outcome of one explored path, after screening: the only
/// kinds that the cross-matching rule knows how to classify.
pub enum Outcome {
    /// The path returned a value with this bounded solution set.
    Return(PossibleSolutions),
    /// The path exited exceptionally.
    Throw,
    /// The path terminated without a recoverable result.
    Abort,
}

/// Specification-level form of [`Outcome`].
pub enum OutcomeView {
    Return(PossibleSolutionsView),
    Throw,
    Abort,
}

impl View for Outcome {
    type V = OutcomeView;

    open spec fn view(&self) -> OutcomeView {
        match self {
            Outcome::Return(s) => OutcomeView::Return(s@),
            Outcome::Throw => OutcomeView::Throw,
            Outcome::Abort => OutcomeView::Abort,
        }
    }
}

/// Why a pair of functions could not be judged, naming the offending
/// function where one side is at fault.
pub enum Diagnosis {
    /// A name of the pair resolves to no function of its module.
    FunctionMissing { function: Vec<u8> },
    /// The two functions take different numbers of parameters.
    ParamCountMismatch { function: Vec<u8> },
    /// Some parameter position carries structurally different types.
    ParamTypeMismatch { function: Vec<u8> },
    /// The function returns void, so return-value equivalence is vacuous.
    VoidReturn { function: Vec<u8> },
    /// The function's return type has a width of zero bits yet is not void.
    ZeroWidthReturn { function: Vec<u8> },
    /// The function's return type is opaque and has no known width.
    OpaqueReturn { function: Vec<u8> },
    /// The two return types have different bit widths.
    ReturnWidthsDiffer,
    /// A path returned void although the signature promises a value.
    UnexpectedVoidOutcome,
    /// A path's loop-exploration bound was exceeded.
    ExplorationLimitExceeded,
    /// The engine failed on a path for another reason.
    EngineFailure,
    /// A solution set could not be enumerated within the complexity bound.
    ComplexityExceeded { function: Vec<u8> },
    /// The outcome kind has no deep-comparison rule yet.
    UnsupportedOutcome,
}

/// Specification-level form of [`Diagnosis`].
pub enum DiagnosisView {
    FunctionMissing { function: Seq<u8> },
    ParamCountMismatch { function: Seq<u8> },
    ParamTypeMismatch { function: Seq<u8> },
    VoidReturn { function: Seq<u8> },
    ZeroWidthReturn { function: Seq<u8> },
    OpaqueReturn { function: Seq<u8> },
    ReturnWidthsDiffer,
    UnexpectedVoidOutcome,
    ExplorationLimitExceeded,
    EngineFailure,
    ComplexityExceeded { function: Seq<u8> },
    UnsupportedOutcome,
}

impl View for Diagnosis {
    type V = DiagnosisView;

    open spec fn view(&self) -> DiagnosisView {
        match self {
            Diagnosis::FunctionMissing { function } => {
                DiagnosisView::FunctionMissing { function: function@ }
            },
            Diagnosis::ParamCountMismatch { function } => {
                DiagnosisView::ParamCountMismatch { function: function@ }
            },
            Diagnosis::ParamTypeMismatch { function } => {
                DiagnosisView::ParamTypeMismatch { function: function@ }
            },
            Diagnosis::VoidReturn { function } => {
                DiagnosisView::VoidReturn { function: function@ }
            },
            Diagnosis::ZeroWidthReturn { function } => {
                DiagnosisView::ZeroWidthReturn { function: function@ }
            },
            Diagnosis::OpaqueReturn { function } => {
                DiagnosisView::OpaqueReturn { function: function@ }
            },
            Diagnosis::ReturnWidthsDiffer => DiagnosisView::ReturnWidthsDiffer,
            Diagnosis::UnexpectedVoidOutcome => DiagnosisView::UnexpectedVoidOutcome,
            Diagnosis::ExplorationLimitExceeded => DiagnosisView::ExplorationLimitExceeded,
            Diagnosis::EngineFailure => DiagnosisView::EngineFailure,
            Diagnosis::ComplexityExceeded { function } => {
                DiagnosisView::ComplexityExceeded { function: function@ }
            },
            Diagnosis::UnsupportedOutcome => DiagnosisView::UnsupportedOutcome,
        }
    }
}

/// The verdict on one matched pair.
pub enum ComparisonResult {
    /// Every old outcome found a matching new outcome.
    Equivalent,
    /// This old outcome found no matching new outcome.
    NotEquivalent { counterexample: Outcome },
    /// The pair could not be judged, for this reason.
    Inconclusive { reason: Diagnosis },
}

/// Specification-level form of [`ComparisonResult`].
pub enum ComparisonResultView {
    Equivalent,
    NotEquivalent { counterexample: OutcomeView },
    Inconclusive { reason: DiagnosisView },
}

impl View for ComparisonResult {
    type V = ComparisonResultView;

    open spec fn view(&self) -> ComparisonResultView {
        match self {
            ComparisonResult::Equivalent => ComparisonResultView::Equivalent,
            ComparisonResult::NotEquivalent { counterexample } => {
                ComparisonResultView::NotEquivalent { counterexample: counterexample@ }
            },
            ComparisonResult::Inconclusive { reason } => {
                ComparisonResultView::Inconclusive { reason: reason@ }
            },
        }
    }
}

} // verus!
