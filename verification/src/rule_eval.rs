//! What each auxiliary rule says of a selection.
//!
//! The counting rules look at the courses that a mask marks as credited. The
//! enrolment rules look at the student's programs. A rule that needs what the
//! selection does not hold is left undecided, never passed.
use crate::ident::{ProgramCode, Units};
use crate::json::Param;
use crate::rule::{AuxiliaryRuleKind, LevelSpec};
use crate::selection::{credited, DisciplineGrouping, SelectedCourse, StudentSelection};
use crate::verdict::{indeterminate, satisfied, unsatisfied, Outcome, Reason, Status, Verdict};
use vstd::prelude::*;

verus! {

/// Whether a course of level `level` is at the level that `spec` asks for.
pub open spec fn level_qualifies(spec: LevelSpec, level: u16) -> bool {
    if spec.or_higher {
        level >= spec.level
    } else {
        level == spec.level
    }
}

/// The units that the course at position `j` adds at the level `spec`: its
/// units where it is credited, known and at the level, else none.
pub open spec fn units_at_level(
    courses: Seq<SelectedCourse>,
    credit: Seq<bool>,
    spec: LevelSpec,
    j: int,
) -> nat {
    if credited(credit, j) && courses[j].facts is Some && level_qualifies(
        spec,
        courses[j].facts->Some_0.level,
    ) {
        courses[j].facts->Some_0.units as nat
    } else {
        0
    }
}

/// The units at the level `spec` among the first `k` courses.
pub open spec fn qualifying_units(
    courses: Seq<SelectedCourse>,
    credit: Seq<bool>,
    spec: LevelSpec,
    k: int,
) -> nat
    decreases k,
{
    if k <= 0 {
        0
    } else {
        qualifying_units(courses, credit, spec, k - 1) + units_at_level(
            courses,
            credit,
            spec,
            k - 1,
        )
    }
}

/// Level and units are known of every credited course.
pub open spec fn facts_known(courses: Seq<SelectedCourse>, credit: Seq<bool>) -> bool {
    forall|j: int|
        0 <= j < courses.len() && credited(credit, j) ==> (#[trigger] courses[j]).facts is Some
}

/// Whether the courses at positions `i` and `j` belong to one discipline.
pub open spec fn same_discipline(sel: StudentSelection, i: int, j: int) -> bool {
    match sel.grouping {
        DisciplineGrouping::CodePrefix => sel.courses@[i].code.prefix@
            == sel.courses@[j].code.prefix@,
        DisciplineGrouping::Descriptor => sel.courses@[i].discipline is Some
            && sel.courses@[j].discipline is Some && sel.courses@[i].discipline->Some_0@
            == sel.courses@[j].discipline->Some_0@,
    }
}

/// The units that the course at position `i` adds to the discipline of the
/// course at position `j`.
pub open spec fn units_in_group(sel: StudentSelection, credit: Seq<bool>, j: int, i: int) -> nat {
    if credited(credit, i) && sel.courses@[i].facts is Some && same_discipline(sel, i, j) {
        sel.courses@[i].facts->Some_0.units as nat
    } else {
        0
    }
}

/// The credited units, among the first `k` courses, of the discipline of the
/// course at position `j`.
pub open spec fn group_units(sel: StudentSelection, credit: Seq<bool>, j: int, k: int) -> nat
    decreases k,
{
    if k <= 0 {
        0
    } else {
        group_units(sel, credit, j, k - 1) + units_in_group(sel, credit, j, k - 1)
    }
}

/// The discipline of every credited course can be told.
pub open spec fn disciplines_known(sel: StudentSelection, credit: Seq<bool>) -> bool {
    sel.grouping == DisciplineGrouping::CodePrefix || forall|j: int|
        0 <= j < sel.courses@.len() && credited(credit, j) ==> (#[trigger] sel.courses@[
            j
        ]).discipline is Some
}

/// Some discipline has more than `n` credited units.
pub open spec fn over_limit(sel: StudentSelection, credit: Seq<bool>, n: Units) -> bool {
    exists|j: int|
        0 <= j < sel.courses@.len() && credited(credit, j) && #[trigger] group_units(
            sel,
            credit,
            j,
            sel.courses@.len() as int,
        ) > n
}

/// The outcome of a rule on units at a level: undecided where a credited
/// course has no known level or units; failed where the units at the level
/// are under `low` or over `high`; passed otherwise.
pub open spec fn level_outcome(
    sel: StudentSelection,
    credit: Seq<bool>,
    spec: LevelSpec,
    low: Option<Units>,
    high: Option<Units>,
) -> Outcome {
    let q = qualifying_units(sel.courses@, credit, spec, sel.courses@.len() as int);
    if !facts_known(sel.courses@, credit) {
        indeterminate(Reason::MissingCatalogData)
    } else if low is Some && q < low->Some_0 {
        unsatisfied(Reason::TooFewUnits)
    } else if high is Some && q > high->Some_0 {
        unsatisfied(Reason::TooManyUnits)
    } else {
        satisfied()
    }
}

/// The outcome of the rule on units from one discipline.
pub open spec fn discipline_outcome(sel: StudentSelection, credit: Seq<bool>, n: Units) -> Outcome {
    if !facts_known(sel.courses@, credit) {
        indeterminate(Reason::MissingCatalogData)
    } else if !disciplines_known(sel, credit) {
        indeterminate(Reason::MissingDiscipline)
    } else if over_limit(sel, credit, n) {
        unsatisfied(Reason::DisciplineOverLimit)
    } else {
        satisfied()
    }
}

/// The outcome of a rule that concerns only students for whom `applies`
/// holds, and whose effect lies outside what a selection shows: undecided
/// where the programs are unknown, undecided where it applies, passed where
/// it does not.
pub open spec fn conditional_outcome(sel: StudentSelection, applies: bool) -> Outcome {
    if sel.programs is None {
        indeterminate(Reason::MissingProgramData)
    } else if applies {
        indeterminate(Reason::NeedsAttention)
    } else {
        satisfied()
    }
}

/// The outcome of one rule for a selection, counting the courses that
/// `credit` marks.
pub open spec fn rule_outcome(
    rule: AuxiliaryRuleKind,
    sel: StudentSelection,
    credit: Seq<bool>,
) -> Outcome {
    match rule {
        AuxiliaryRuleKind::Ar1 { n, spec } => level_outcome(sel, credit, spec, Some(n), None),
        AuxiliaryRuleKind::Ar2 { n, level } => level_outcome(
            sel,
            credit,
            LevelSpec { level, or_higher: false },
            None,
            Some(n),
        ),
        AuxiliaryRuleKind::Ar3 { n, spec } => level_outcome(sel, credit, spec, Some(n), Some(n)),
        AuxiliaryRuleKind::Ar4 { n, m, spec } => level_outcome(
            sel,
            credit,
            spec,
            Some(n),
            Some(m),
        ),
        AuxiliaryRuleKind::Ar5 { plan_list_1, plan_list_2 } => if sel.programs is None {
            indeterminate(Reason::MissingProgramData)
        } else if sel.enrolled_in_any(plan_list_1@) && !sel.enrolled_in_any(plan_list_2@) {
            unsatisfied(Reason::CompanionPlanMissing)
        } else {
            satisfied()
        },
        AuxiliaryRuleKind::Ar6 { plan_list_1, plan_list_2 } => if sel.programs is None {
            indeterminate(Reason::MissingProgramData)
        } else if sel.enrolled_in_any(plan_list_1@) && sel.enrolled_in_any(plan_list_2@) {
            unsatisfied(Reason::PlansConflict)
        } else {
            satisfied()
        },
        AuxiliaryRuleKind::Ar7 { n } => discipline_outcome(sel, credit, n),
        AuxiliaryRuleKind::Ar9 { course_list } => satisfied(),
        AuxiliaryRuleKind::Ar10 { course_list, plan_list } => conditional_outcome(sel, false),
        AuxiliaryRuleKind::Ar11 { course_list, plan_list } => conditional_outcome(sel, false),
        AuxiliaryRuleKind::Ar13 { plan_list, course_list, program_plan_list } => conditional_outcome(
            sel,
            sel.enrolled_in_any(plan_list@),
        ),
        AuxiliaryRuleKind::Ar15 { course_list, must, program_plan_list, lists } => conditional_outcome(
            sel,
            sel.enrolled_in_any(program_plan_list@),
        ),
        AuxiliaryRuleKind::Ar16 {
            plan_list,
            course_list_1,
            must,
            course_list_2,
            program_plan_list,
        } => conditional_outcome(sel, sel.enrolled_in_any(plan_list@)),
        AuxiliaryRuleKind::Ar17 { plan_list, course_list, must, program_plan_list, lists } =>
            conditional_outcome(sel, sel.enrolled_in_any(plan_list@)),
        AuxiliaryRuleKind::Ar18 { course_list, program } => if !sel.has_any_course(course_list@) {
            satisfied()
        } else {
            conditional_outcome(sel, true)
        },
        AuxiliaryRuleKind::Ar19 { plan_list, course_list, program } => conditional_outcome(
            sel,
            sel.enrolled_in_any(plan_list@) && sel.has_any_course(course_list@),
        ),
        AuxiliaryRuleKind::Ar20 { plan_1, plan_list_1, course_list, plan_list_2 } =>
            conditional_outcome(
                sel,
                sel.enrolled(plan_1) && sel.enrolled_in_any(plan_list_1@) && sel.has_any_course(
                    course_list@,
                ),
            ),
        AuxiliaryRuleKind::ArUnknown { text, raw_params } => indeterminate(
            Reason::UnknownRule { text },
        ),
    }
}

/// The mask that credits each of `n` courses.
pub open spec fn all_credited(n: nat) -> Seq<bool> {
    Seq::new(n, |j: int| true)
}

/// Whether the mask `credit` marks the course at position `j`.
pub fn is_credited(credit: &Vec<bool>, j: usize) -> (r: bool)
    ensures
        r == credited(credit@, j as int),
{
    j < credit.len() && credit[j]
}

/// Whether level and units are known of every credited course.
pub fn all_facts_known(sel: &StudentSelection, credit: &Vec<bool>) -> (r: bool)
    ensures
        r == facts_known(sel.courses@, credit@),
{
    let mut j: usize = 0;
    while j < sel.courses.len()
        invariant
            j <= sel.courses.len(),
            forall|k: int|
                0 <= k < j && credited(credit@, k) ==> (#[trigger] sel.courses@[k]).facts is Some,
        decreases sel.courses.len() - j,
    {
        if is_credited(credit, j) && sel.courses[j].facts.is_none() {
            return false;
        }
        j = j + 1;
    }
    true
}

/// The credited units at the level `spec`.
pub fn count_qualifying_units(sel: &StudentSelection, credit: &Vec<bool>, spec: LevelSpec) -> (r:
    u128)
    ensures
        r == qualifying_units(sel.courses@, credit@, spec, sel.courses@.len() as int),
{
    let mut total: u128 = 0;
    let mut j: usize = 0;
    while j < sel.courses.len()
        invariant
            j <= sel.courses.len(),
            total == qualifying_units(sel.courses@, credit@, spec, j as int),
            total <= j * 65535,
        decreases sel.courses.len() - j,
    {
        if is_credited(credit, j) {
            match sel.courses[j].facts {
                Some(facts) => {
                    let at_level = if spec.or_higher {
                        facts.level >= spec.level
                    } else {
                        facts.level == spec.level
                    };
                    if at_level {
                        total = total + facts.units as u128;
                    }
                },
                None => {},
            }
        }
        j = j + 1;
    }
    total
}

/// Checks a rule on units at a level.
pub fn evaluate_level(
    sel: &StudentSelection,
    credit: &Vec<bool>,
    spec: LevelSpec,
    low: Option<Units>,
    high: Option<Units>,
) -> (r: Verdict)
    ensures
        r@ == level_outcome(*sel, credit@, spec, low, high),
{
    if !all_facts_known(sel, credit) {
        return Verdict::undecided(Reason::MissingCatalogData);
    }
    let q = count_qualifying_units(sel, credit, spec);
    match low {
        Some(n) => {
            if q < n as u128 {
                return Verdict::failed(Reason::TooFewUnits);
            }
        },
        None => {},
    }
    match high {
        Some(m) => {
            if q > m as u128 {
                return Verdict::failed(Reason::TooManyUnits);
            }
        },
        None => {},
    }
    Verdict::Satisfied
}

/// Whether the discipline of every credited course can be told.
pub fn all_disciplines_known(sel: &StudentSelection, credit: &Vec<bool>) -> (r: bool)
    ensures
        r == disciplines_known(*sel, credit@),
{
    match sel.grouping {
        DisciplineGrouping::CodePrefix => true,
        DisciplineGrouping::Descriptor => {
            let mut j: usize = 0;
            while j < sel.courses.len()
                invariant
                    sel.grouping == DisciplineGrouping::Descriptor,
                    j <= sel.courses.len(),
                    forall|k: int|
                        0 <= k < j && credited(credit@, k) ==> (#[trigger] sel.courses@[
                            k
                        ]).discipline is Some,
                decreases sel.courses.len() - j,
            {
                if is_credited(credit, j) && sel.courses[j].discipline.is_none() {
                    return false;
                }
                j = j + 1;
            }
            true
        },
    }
}

/// Whether the courses at positions `i` and `j` belong to one discipline.
pub fn in_same_discipline(sel: &StudentSelection, i: usize, j: usize) -> (r: bool)
    requires
        i < sel.courses@.len(),
        j < sel.courses@.len(),
    ensures
        r == same_discipline(*sel, i as int, j as int),
{
    match sel.grouping {
        DisciplineGrouping::CodePrefix => sel.courses[i].code.prefix == sel.courses[j].code.prefix,
        DisciplineGrouping::Descriptor => match (&sel.courses[i].discipline, &sel.courses[
            j
        ].discipline) {
            (Some(a), Some(b)) => *a == *b,
            _ => false,
        },
    }
}

/// The credited units of the discipline of the course at position `j`.
pub fn count_group_units(sel: &StudentSelection, credit: &Vec<bool>, j: usize) -> (r: u128)
    requires
        j < sel.courses@.len(),
    ensures
        r == group_units(*sel, credit@, j as int, sel.courses@.len() as int),
{
    let mut total: u128 = 0;
    let mut i: usize = 0;
    while i < sel.courses.len()
        invariant
            j < sel.courses@.len(),
            i <= sel.courses.len(),
            total == group_units(*sel, credit@, j as int, i as int),
            total <= i * 65535,
        decreases sel.courses.len() - i,
    {
        if is_credited(credit, i) && in_same_discipline(sel, i, j) {
            match sel.courses[i].facts {
                Some(facts) => {
                    total = total + facts.units as u128;
                },
                None => {},
            }
        }
        i = i + 1;
    }
    total
}

/// Whether some discipline has more than `n` credited units.
pub fn any_group_over(sel: &StudentSelection, credit: &Vec<bool>, n: Units) -> (r: bool)
    ensures
        r == over_limit(*sel, credit@, n),
{
    let mut j: usize = 0;
    while j < sel.courses.len()
        invariant
            j <= sel.courses.len(),
            forall|k: int|
                0 <= k < j && credited(credit@, k) ==> #[trigger] group_units(
                    *sel,
                    credit@,
                    k,
                    sel.courses@.len() as int,
                ) <= n,
        decreases sel.courses.len() - j,
    {
        if is_credited(credit, j) {
            let units = count_group_units(sel, credit, j);
            if units > n as u128 {
                return true;
            }
        }
        j = j + 1;
    }
    false
}

/// Checks the rule on units from one discipline.
pub fn evaluate_discipline(sel: &StudentSelection, credit: &Vec<bool>, n: Units) -> (r: Verdict)
    ensures
        r@ == discipline_outcome(*sel, credit@, n),
{
    if !all_facts_known(sel, credit) {
        Verdict::undecided(Reason::MissingCatalogData)
    } else if !all_disciplines_known(sel, credit) {
        Verdict::undecided(Reason::MissingDiscipline)
    } else if any_group_over(sel, credit, n) {
        Verdict::failed(Reason::DisciplineOverLimit)
    } else {
        Verdict::Satisfied
    }
}

/// Checks a rule whose effect lies outside what a selection shows.
pub fn evaluate_conditional(sel: &StudentSelection, applies: bool) -> (r: Verdict)
    ensures
        r@ == conditional_outcome(*sel, applies),
{
    if sel.programs.is_none() {
        Verdict::undecided(Reason::MissingProgramData)
    } else if applies {
        Verdict::undecided(Reason::NeedsAttention)
    } else {
        Verdict::Satisfied
    }
}

/// Checks one rule for a selection, counting the courses that `credit` marks.
pub fn evaluate_rule_credited(
    rule: &AuxiliaryRuleKind,
    sel: &StudentSelection,
    credit: &Vec<bool>,
) -> (r: Verdict)
    ensures
        r@ == rule_outcome(*rule, *sel, credit@),
{
    match rule {
        AuxiliaryRuleKind::Ar1 { n, spec } => evaluate_level(sel, credit, *spec, Some(*n), None),
        AuxiliaryRuleKind::Ar2 { n, level } => evaluate_level(
            sel,
            credit,
            LevelSpec { level: *level, or_higher: false },
            None,
            Some(*n),
        ),
        AuxiliaryRuleKind::Ar3 { n, spec } => evaluate_level(
            sel,
            credit,
            *spec,
            Some(*n),
            Some(*n),
        ),
        AuxiliaryRuleKind::Ar4 { n, m, spec } => evaluate_level(
            sel,
            credit,
            *spec,
            Some(*n),
            Some(*m),
        ),
        AuxiliaryRuleKind::Ar5 { plan_list_1, plan_list_2 } => {
            if sel.programs.is_none() {
                Verdict::undecided(Reason::MissingProgramData)
            } else if sel.is_enrolled_in_any(plan_list_1) && !sel.is_enrolled_in_any(plan_list_2) {
                Verdict::failed(Reason::CompanionPlanMissing)
            } else {
                Verdict::Satisfied
            }
        },
        AuxiliaryRuleKind::Ar6 { plan_list_1, plan_list_2 } => {
            if sel.programs.is_none() {
                Verdict::undecided(Reason::MissingProgramData)
            } else if sel.is_enrolled_in_any(plan_list_1) && sel.is_enrolled_in_any(plan_list_2) {
                Verdict::failed(Reason::PlansConflict)
            } else {
                Verdict::Satisfied
            }
        },
        AuxiliaryRuleKind::Ar7 { n } => evaluate_discipline(sel, credit, *n),
        AuxiliaryRuleKind::Ar9 { .. } => Verdict::Satisfied,
        AuxiliaryRuleKind::Ar10 { .. } => evaluate_conditional(sel, false),
        AuxiliaryRuleKind::Ar11 { .. } => evaluate_conditional(sel, false),
        AuxiliaryRuleKind::Ar13 { plan_list, .. } => evaluate_conditional(
            sel,
            sel.is_enrolled_in_any(plan_list),
        ),
        AuxiliaryRuleKind::Ar15 { program_plan_list, .. } => evaluate_conditional(
            sel,
            sel.is_enrolled_in_any(program_plan_list),
        ),
        AuxiliaryRuleKind::Ar16 { plan_list, .. } => evaluate_conditional(
            sel,
            sel.is_enrolled_in_any(plan_list),
        ),
        AuxiliaryRuleKind::Ar17 { plan_list, .. } => evaluate_conditional(
            sel,
            sel.is_enrolled_in_any(plan_list),
        ),
        AuxiliaryRuleKind::Ar18 { course_list, .. } => {
            if !sel.holds_any_course(course_list) {
                Verdict::Satisfied
            } else {
                evaluate_conditional(sel, true)
            }
        },
        AuxiliaryRuleKind::Ar19 { plan_list, course_list, .. } => evaluate_conditional(
            sel,
            sel.is_enrolled_in_any(plan_list) && sel.holds_any_course(course_list),
        ),
        AuxiliaryRuleKind::Ar20 { plan_1, plan_list_1, course_list, .. } => evaluate_conditional(
            sel,
            sel.is_enrolled(plan_1) && sel.is_enrolled_in_any(plan_list_1) && sel.holds_any_course(
                course_list,
            ),
        ),
        AuxiliaryRuleKind::ArUnknown { text, .. } => Verdict::undecided(
            Reason::UnknownRule { text: text.clone() },
        ),
    }
}

/// Checks one rule for a selection, counting every course of it.
pub fn evaluate_rule(rule: &AuxiliaryRuleKind, sel: &StudentSelection) -> (r: Verdict)
    ensures
        r@ == rule_outcome(*rule, *sel, all_credited(sel.courses@.len())),
{
    let mut credit: Vec<bool> = Vec::new();
    let mut j: usize = 0;
    while j < sel.courses.len()
        invariant
            j <= sel.courses.len(),
            credit@.len() == j,
            forall|k: int| 0 <= k < j ==> credit@[k],
        decreases sel.courses.len() - j,
    {
        credit.push(true);
        j = j + 1;
    }
    assert(credit@ =~= all_credited(sel.courses@.len()));
    evaluate_rule_credited(rule, sel, &credit)
}

/// A rule of no known form is never decided: whatever the selection and the
/// mask, it is neither passed nor failed, and its text is the reason.
pub proof fn law_unknown_rule_is_undecided(
    text: String,
    raw_params: Vec<Param>,
    sel: StudentSelection,
    credit: Seq<bool>,
)
    ensures
        rule_outcome(AuxiliaryRuleKind::ArUnknown { text, raw_params }, sel, credit)
            == indeterminate(Reason::UnknownRule { text }),
        rule_outcome(AuxiliaryRuleKind::ArUnknown { text, raw_params }, sel, credit).status
            == Status::Indeterminate,
{
}

/// A plan of the first list is allowed only together with a plan of the
/// second: where the student's programs are known, the rule fails exactly
/// when the student is in a plan of the first list and in none of the
/// second, and passes otherwise. A student in no plan of the first list
/// always passes.
pub proof fn law_companion_plans(
    plan_list_1: Vec<ProgramCode>,
    plan_list_2: Vec<ProgramCode>,
    sel: StudentSelection,
    credit: Seq<bool>,
)
    requires
        sel.programs is Some,
    ensures
        ({
            let out = rule_outcome(AuxiliaryRuleKind::Ar5 { plan_list_1, plan_list_2 }, sel, credit);
            &&& out.status == Status::Unsatisfied <==> sel.enrolled_in_any(
                plan_list_1@,
            ) && !sel.enrolled_in_any(plan_list_2@)
            &&& out.status == Status::Satisfied <==> !sel.enrolled_in_any(
                plan_list_1@,
            ) || sel.enrolled_in_any(plan_list_2@)
        }),
{
}

} // verus!
