//! The result of checking a requirement: a status and the reasons for it.
use vstd::prelude::*;

verus! {

/// The three ways a check can end.
#[derive(Debug, Clone, Copy, PartialEq, Eq, Structural)]
pub enum Status {
    Satisfied,
    Unsatisfied,
    Indeterminate,
}

/// Why a check did not end as satisfied.
#[derive(Debug, Clone, PartialEq, Eq)]
pub enum Reason {
    /// The referenced course or program is not in the selection.
    ReferenceNotSelected,
    /// No member of the equivalence group is in the selection.
    NoEquivalentSelected,
    /// No course that is still free fits the wildcard.
    NoWildcardMatch,
    /// The child at this position of the body is not satisfied.
    ChildNotSatisfied { index: usize },
    /// The auxiliary rule at this position of the header is not satisfied.
    RuleNotSatisfied { index: usize },
    /// The node combines its children in a way that is not understood.
    UnknownLogic { text: String },
    /// Fewer units are credited than the node asks for.
    UnitsBelowMinimum,
    /// More units are credited than the node allows.
    UnitsAboveMaximum,
    /// Fewer units at the level than the rule asks for.
    TooFewUnits,
    /// More units at the level than the rule allows.
    TooManyUnits,
    /// A plan is taken without any of the plans it has to go with.
    CompanionPlanMissing,
    /// Two plans are taken that may not go together.
    PlansConflict,
    /// More units from one discipline than the rule allows.
    DisciplineOverLimit,
    /// Level or units of a counted course are not known.
    MissingCatalogData,
    /// The programs the student is enrolled in are not known.
    MissingProgramData,
    /// The discipline of a counted course is not known.
    MissingDiscipline,
    /// The rule concerns this student and needs a person to decide.
    NeedsAttention,
    /// The rule is of no known form; its text is kept.
    UnknownRule { text: String },
}

/// What a verdict says: the status with its reasons in order.
pub struct Outcome {
    pub status: Status,
    pub reasons: Seq<Reason>,
}

/// The result of one check.
#[derive(Debug, Clone, PartialEq, Eq)]
pub enum Verdict {
    Satisfied,
    Unsatisfied { reasons: Vec<Reason> },
    Indeterminate { reasons: Vec<Reason> },
}

impl View for Verdict {
    type V = Outcome;

    open spec fn view(&self) -> Outcome {
        match self {
            Verdict::Satisfied => Outcome { status: Status::Satisfied, reasons: Seq::empty() },
            Verdict::Unsatisfied { reasons } => Outcome {
                status: Status::Unsatisfied,
                reasons: reasons@,
            },
            Verdict::Indeterminate { reasons } => Outcome {
                status: Status::Indeterminate,
                reasons: reasons@,
            },
        }
    }
}

/// The outcome of a check that passed.
pub open spec fn satisfied() -> Outcome {
    Outcome { status: Status::Satisfied, reasons: Seq::empty() }
}

/// The outcome of a check that failed for one reason.
pub open spec fn unsatisfied(reason: Reason) -> Outcome {
    Outcome { status: Status::Unsatisfied, reasons: seq![reason] }
}

/// The outcome of a check that could not be decided, for one reason.
pub open spec fn indeterminate(reason: Reason) -> Outcome {
    Outcome { status: Status::Indeterminate, reasons: seq![reason] }
}

impl Verdict {
    /// The status of the verdict.
    pub fn status(&self) -> (r: Status)
        ensures
            r == self@.status,
    {
        match self {
            Verdict::Satisfied => Status::Satisfied,
            Verdict::Unsatisfied { .. } => Status::Unsatisfied,
            Verdict::Indeterminate { .. } => Status::Indeterminate,
        }
    }

    /// Whether the check passed.
    pub fn is_satisfied(&self) -> (r: bool)
        ensures
            r == (self@.status == Status::Satisfied),
    {
        match self {
            Verdict::Satisfied => true,
            _ => false,
        }
    }

    /// A failed check with one reason.
    pub fn failed(reason: Reason) -> (r: Verdict)
        ensures
            r@ == unsatisfied(reason),
    {
        let mut reasons: Vec<Reason> = Vec::new();
        reasons.push(reason);
        assert(reasons@ =~= seq![reason]);
        Verdict::Unsatisfied { reasons }
    }

    /// An undecided check with one reason.
    pub fn undecided(reason: Reason) -> (r: Verdict)
        ensures
            r@ == indeterminate(reason),
    {
        let mut reasons: Vec<Reason> = Vec::new();
        reasons.push(reason);
        assert(reasons@ =~= seq![reason]);
        Verdict::Indeterminate { reasons }
    }
}

} // verus!
