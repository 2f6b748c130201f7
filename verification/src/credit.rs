//! Which courses of a selection count towards a node, and the node's bounds
//! on units.
use crate::matching::{in_scope, is_in_scope};
use crate::rule::{AuxiliaryRule, AuxiliaryRuleKind};
use crate::rule_eval::{all_facts_known, facts_known};
use crate::selection::{credited, list_has_course, lists_course, SelectedCourse, StudentSelection};
use crate::tree::{ComponentPayload, ComponentPayloadHeader};
use crate::verdict::{indeterminate, satisfied, unsatisfied, Outcome, Reason, Verdict};
use vstd::prelude::*;

verus! {

/// Whether the rule takes the credit for the course away: the rule lists the
/// course and gives no credit for it at all, or gives none to students in a
/// plan that this student is in, or gives none to students outside the plans
/// and this student is in none of them.
pub open spec fn rule_excludes(
    rule: AuxiliaryRuleKind,
    sel: StudentSelection,
    c: SelectedCourse,
) -> bool {
    match rule {
        AuxiliaryRuleKind::Ar9 { course_list } => lists_course(course_list@, c.code),
        AuxiliaryRuleKind::Ar10 { course_list, plan_list } => lists_course(course_list@, c.code)
            && sel.programs is Some && sel.enrolled_in_any(plan_list@),
        AuxiliaryRuleKind::Ar11 { course_list, plan_list } => lists_course(course_list@, c.code)
            && sel.programs is Some && !sel.enrolled_in_any(plan_list@),
        _ => false,
    }
}

/// Whether one of the rules takes the credit for the course away.
pub open spec fn excluded(rules: Seq<AuxiliaryRule>, sel: StudentSelection, c: SelectedCourse) -> bool {
    exists|k: int| 0 <= k < rules.len() && rule_excludes((#[trigger] rules[k]).rule, sel, c)
}

/// The courses that count towards a node: those that belong to it and that
/// none of its rules takes the credit away from.
pub open spec fn node_credit(
    header: ComponentPayloadHeader,
    body: Seq<ComponentPayload>,
    sel: StudentSelection,
) -> Seq<bool> {
    Seq::new(
        sel.courses@.len(),
        |j: int|
            in_scope(body, sel.courses@[j]) && !excluded(
                header.auxiliary_rules@,
                sel,
                sel.courses@[j],
            ),
    )
}

/// The units that the course at position `j` adds: its units where it is
/// credited and they are known, else none.
pub open spec fn units_counted(courses: Seq<SelectedCourse>, credit: Seq<bool>, j: int) -> nat {
    if credited(credit, j) && courses[j].facts is Some {
        courses[j].facts->Some_0.units as nat
    } else {
        0
    }
}

/// The credited units among the first `k` courses.
pub open spec fn credited_units(courses: Seq<SelectedCourse>, credit: Seq<bool>, k: int) -> nat
    decreases k,
{
    if k <= 0 {
        0
    } else {
        credited_units(courses, credit, k - 1) + units_counted(courses, credit, k - 1)
    }
}

/// What bounds on units say of the credited courses: passed where there are
/// none; undecided where the units of a credited course are not known;
/// failed where the credited units are under the minimum or over the
/// maximum; passed otherwise.
pub open spec fn limits_outcome(
    units_min: Option<i64>,
    units_max: Option<i64>,
    sel: StudentSelection,
    credit: Seq<bool>,
) -> Outcome {
    let total = credited_units(sel.courses@, credit, sel.courses@.len() as int);
    if units_min is None && units_max is None {
        satisfied()
    } else if !facts_known(sel.courses@, credit) {
        indeterminate(Reason::MissingCatalogData)
    } else if units_min is Some && total < units_min->Some_0 {
        unsatisfied(Reason::UnitsBelowMinimum)
    } else if units_max is Some && total > units_max->Some_0 {
        unsatisfied(Reason::UnitsAboveMaximum)
    } else {
        satisfied()
    }
}

/// What the bounds of a node say of the credited courses.
pub open spec fn bounds_outcome(
    header: ComponentPayloadHeader,
    sel: StudentSelection,
    credit: Seq<bool>,
) -> Outcome {
    limits_outcome(header.units_min, header.units_max, sel, credit)
}

/// Whether the rule takes the credit for the course away.
pub fn rule_excludes_course(rule: &AuxiliaryRuleKind, sel: &StudentSelection, c: &SelectedCourse) -> (r:
    bool)
    ensures
        r == rule_excludes(*rule, *sel, *c),
{
    match rule {
        AuxiliaryRuleKind::Ar9 { course_list } => list_has_course(course_list, &c.code),
        AuxiliaryRuleKind::Ar10 { course_list, plan_list } => list_has_course(course_list, &c.code)
            && sel.programs.is_some() && sel.is_enrolled_in_any(plan_list),
        AuxiliaryRuleKind::Ar11 { course_list, plan_list } => list_has_course(course_list, &c.code)
            && sel.programs.is_some() && !sel.is_enrolled_in_any(plan_list),
        _ => false,
    }
}

/// Whether one of the rules takes the credit for the course away.
pub fn is_excluded(rules: &Vec<AuxiliaryRule>, sel: &StudentSelection, c: &SelectedCourse) -> (r:
    bool)
    ensures
        r == excluded(rules@, *sel, *c),
{
    let mut k: usize = 0;
    while k < rules.len()
        invariant
            k <= rules.len(),
            forall|i: int| 0 <= i < k ==> !rule_excludes((#[trigger] rules@[i]).rule, *sel, *c),
        decreases rules.len() - k,
    {
        if rule_excludes_course(&rules[k].rule, sel, c) {
            return true;
        }
        k = k + 1;
    }
    false
}

/// Marks the courses that count towards a node.
pub fn compute_credit(
    header: &ComponentPayloadHeader,
    body: &Vec<ComponentPayload>,
    sel: &StudentSelection,
) -> (r: Vec<bool>)
    ensures
        r@ == node_credit(*header, body@, *sel),
{
    let mut out: Vec<bool> = Vec::new();
    let mut j: usize = 0;
    while j < sel.courses.len()
        invariant
            j <= sel.courses.len(),
            out@.len() == j,
            forall|k: int|
                0 <= k < j ==> out@[k] == (in_scope(body@, sel.courses@[k]) && !excluded(
                    header.auxiliary_rules@,
                    *sel,
                    sel.courses@[k],
                )),
        decreases sel.courses.len() - j,
    {
        let c = &sel.courses[j];
        let counts = is_in_scope(body, c) && !is_excluded(&header.auxiliary_rules, sel, c);
        out.push(counts);
        j = j + 1;
    }
    assert(out@ =~= node_credit(*header, body@, *sel));
    out
}

/// The credited units of a selection.
pub fn count_credited_units(sel: &StudentSelection, credit: &Vec<bool>) -> (r: u128)
    ensures
        r == credited_units(sel.courses@, credit@, sel.courses@.len() as int),
{
    let mut total: u128 = 0;
    let mut j: usize = 0;
    while j < sel.courses.len()
        invariant
            j <= sel.courses.len(),
            total == credited_units(sel.courses@, credit@, j as int),
            total <= j * 65535,
        decreases sel.courses.len() - j,
    {
        if j < credit.len() && credit[j] {
            match sel.courses[j].facts {
                Some(facts) => {
                    total = total + facts.units as u128;
                },
                None => {},
            }
        }
        j = j + 1;
    }
    total
}

/// Checks bounds on units against the credited courses.
pub fn evaluate_limits(
    units_min: Option<i64>,
    units_max: Option<i64>,
    sel: &StudentSelection,
    credit: &Vec<bool>,
) -> (r: Verdict)
    ensures
        r@ == limits_outcome(units_min, units_max, *sel, credit@),
{
    if units_min.is_none() && units_max.is_none() {
        return Verdict::Satisfied;
    }
    if !all_facts_known(sel, credit) {
        return Verdict::undecided(Reason::MissingCatalogData);
    }
    let total = count_credited_units(sel, credit);
    match units_min {
        Some(low) => {
            if low > 0 && total < low as u128 {
                return Verdict::failed(Reason::UnitsBelowMinimum);
            }
        },
        None => {},
    }
    match units_max {
        Some(high) => {
            if high < 0 || total > high as u128 {
                return Verdict::failed(Reason::UnitsAboveMaximum);
            }
        },
        None => {},
    }
    Verdict::Satisfied
}

/// Checks the bounds of a node against the credited courses.
pub fn evaluate_bounds(header: &ComponentPayloadHeader, sel: &StudentSelection, credit: &Vec<bool>) -> (r:
    Verdict)
    ensures
        r@ == bounds_outcome(*header, *sel, credit@),
{
    evaluate_limits(header.units_min, header.units_max, sel, credit)
}

/// A course that a "no credit" rule of the node lists never counts towards
/// the node, whatever else the selection holds: it is not credited, and it
/// adds no units.
pub proof fn law_listed_course_gives_no_credit(
    header: ComponentPayloadHeader,
    body: Seq<ComponentPayload>,
    sel: StudentSelection,
    k: int,
    j: int,
)
    requires
        0 <= k < header.auxiliary_rules@.len(),
        0 <= j < sel.courses@.len(),
        match header.auxiliary_rules@[k].rule {
            AuxiliaryRuleKind::Ar9 { course_list } => lists_course(
                course_list@,
                sel.courses@[j].code,
            ),
            _ => false,
        },
    ensures
        !credited(node_credit(header, body, sel), j),
        units_counted(sel.courses@, node_credit(header, body, sel), j) == 0,
{
    assert(rule_excludes(header.auxiliary_rules@[k].rule, sel, sel.courses@[j]));
}

} // verus!
