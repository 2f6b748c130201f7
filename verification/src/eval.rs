//! Evaluation of a selection against a requirement tree.
//!
//! A leaf is satisfied by what the selection holds. A node combines three
//! parts: its children, by its declared logic; its auxiliary rules; and its
//! bounds on units. Every part has to hold. Within one node a wildcard takes
//! the first course that fits it and that neither a sibling reference names
//! nor an earlier wildcard has taken, so no course fills two slots of a node.
use crate::credit::{
    bounds_outcome, compute_credit, evaluate_bounds, evaluate_limits, limits_outcome, node_credit,
};
use crate::matching::{
    fits_wildcard, group_present, is_group_present, is_reference_present, leaf_names,
    leaf_names_course, reference_present, wildcard_fits,
};
use crate::rule::AuxiliaryRule;
use crate::rule_eval::{all_credited, evaluate_rule_credited, rule_outcome};
use crate::selection::{credited, SelectedCourse, StudentSelection};
use crate::tree::{
    Component, ComponentPayload, ComponentPayloadHeader, ComponentPayloadLeaf,
    ProgramRequirements, RuleLogic, WildCardItem,
};
use crate::verdict::{satisfied, unsatisfied, Outcome, Reason, Status, Verdict};
use vstd::prelude::*;

verus! {

/// The status of two checks that both have to hold: failed where one failed,
/// else undecided where one is undecided, else passed.
pub open spec fn worst(a: Status, b: Status) -> Status {
    if a == Status::Unsatisfied || b == Status::Unsatisfied {
        Status::Unsatisfied
    } else if a == Status::Indeterminate || b == Status::Indeterminate {
        Status::Indeterminate
    } else {
        Status::Satisfied
    }
}

/// The status of two checks of which one has to hold: passed where one
/// passed, else undecided where one is undecided, else failed.
pub open spec fn best(a: Status, b: Status) -> Status {
    if a == Status::Satisfied || b == Status::Satisfied {
        Status::Satisfied
    } else if a == Status::Indeterminate || b == Status::Indeterminate {
        Status::Indeterminate
    } else {
        Status::Unsatisfied
    }
}

/// The status of the first `k` checks where all have to hold.
pub open spec fn all_of(s: Seq<Status>, k: int) -> Status
    decreases k,
{
    if k <= 0 {
        Status::Satisfied
    } else {
        worst(all_of(s, k - 1), s[k - 1])
    }
}

/// The status of the first `k` checks where one has to hold.
pub open spec fn any_of(s: Seq<Status>, k: int) -> Status
    decreases k,
{
    if k <= 0 {
        Status::Unsatisfied
    } else {
        best(any_of(s, k - 1), s[k - 1])
    }
}

/// One reason for each of the first `k` children that is not satisfied, in
/// order.
pub open spec fn child_reasons(s: Seq<Status>, k: int) -> Seq<Reason>
    decreases k,
{
    if k <= 0 {
        Seq::empty()
    } else if s[k - 1] != Status::Satisfied {
        child_reasons(s, k - 1).push(Reason::ChildNotSatisfied { index: (k - 1) as usize })
    } else {
        child_reasons(s, k - 1)
    }
}

/// One reason for each of the first `k` rules that is not satisfied, in
/// order.
pub open spec fn rule_reasons(s: Seq<Status>, k: int) -> Seq<Reason>
    decreases k,
{
    if k <= 0 {
        Seq::empty()
    } else if s[k - 1] != Status::Satisfied {
        rule_reasons(s, k - 1).push(Reason::RuleNotSatisfied { index: (k - 1) as usize })
    } else {
        rule_reasons(s, k - 1)
    }
}

/// A status with its reasons; a passed check carries none.
pub open spec fn outcome(status: Status, reasons: Seq<Reason>) -> Outcome {
    if status == Status::Satisfied {
        satisfied()
    } else {
        Outcome { status, reasons }
    }
}

/// What the children of a node come to under its logic. Without declared
/// logic all are required. "Or" asks for one of them, and for nothing where
/// there are none. Logic that is not understood leaves the node undecided.
pub open spec fn children_part(logic: Option<RuleLogic>, statuses: Seq<Status>) -> Outcome {
    let n = statuses.len() as int;
    match logic {
        Some(RuleLogic::Unknown(text)) => Outcome {
            status: Status::Indeterminate,
            reasons: seq![Reason::UnknownLogic { text }],
        },
        Some(RuleLogic::Or) => if n == 0 {
            satisfied()
        } else {
            outcome(any_of(statuses, n), child_reasons(statuses, n))
        },
        _ => outcome(all_of(statuses, n), child_reasons(statuses, n)),
    }
}

/// What the rules of a node come to: all have to hold.
pub open spec fn rules_part(statuses: Seq<Status>) -> Outcome {
    let n = statuses.len() as int;
    outcome(all_of(statuses, n), rule_reasons(statuses, n))
}

/// The outcome of a node from its three parts: all have to hold, and the
/// reasons follow in the order children, rules, bounds.
pub open spec fn combine(children: Outcome, rules: Outcome, bounds: Outcome) -> Outcome {
    outcome(
        worst(worst(children.status, rules.status), bounds.status),
        children.reasons + rules.reasons + bounds.reasons,
    )
}

/// The mask that marks none of `n` courses.
pub open spec fn none_consumed(n: nat) -> Seq<bool> {
    Seq::new(n, |j: int| false)
}

/// Whether a leaf among `body` points to the course by its code.
pub open spec fn specific_taken(body: Seq<ComponentPayload>, c: SelectedCourse) -> bool {
    exists|i: int|
        0 <= i < body.len() && (#[trigger] body[i]) is Leaf && leaf_names(body[i]->Leaf_0, c)
}

/// The courses that the references and groups among `body` name: no wildcard
/// of the same node may take them.
pub open spec fn initial_consumed(
    body: Seq<ComponentPayload>,
    courses: Seq<SelectedCourse>,
) -> Seq<bool> {
    Seq::new(courses.len(), |j: int| specific_taken(body, courses[j]))
}

/// The first course, from position `from` on, that fits the wildcard and is
/// not marked in `consumed`.
pub open spec fn first_fit(
    w: WildCardItem,
    courses: Seq<SelectedCourse>,
    consumed: Seq<bool>,
    from: int,
) -> Option<int>
    decreases courses.len() - from,
{
    if from < 0 || from >= courses.len() {
        None
    } else if !credited(consumed, from) && wildcard_fits(w, courses[from]) {
        Some(from)
    } else {
        first_fit(w, courses, consumed, from + 1)
    }
}

/// The mask after `child` has been looked at: a wildcard marks the course it
/// takes; any other child leaves the mask as it is.
pub open spec fn after_child(
    child: ComponentPayload,
    courses: Seq<SelectedCourse>,
    prev: Seq<bool>,
) -> Seq<bool> {
    match child {
        ComponentPayload::Leaf(ComponentPayloadLeaf::WildCardItem { wild_card_item, .. }) =>
            match first_fit(wild_card_item, courses, prev, 0) {
                Some(j) => prev.update(j, true),
                None => prev,
            },
        _ => prev,
    }
}

/// The courses that are taken when the child at position `k` is looked at.
pub open spec fn consumed_before(
    body: Seq<ComponentPayload>,
    courses: Seq<SelectedCourse>,
    k: int,
) -> Seq<bool>
    decreases k,
{
    if k <= 0 {
        initial_consumed(body, courses)
    } else {
        after_child(body[k - 1], courses, consumed_before(body, courses, k - 1))
    }
}

/// The outcome of a leaf, where `consumed` marks the courses that a wildcard
/// may not take.
pub open spec fn leaf_outcome(
    leaf: ComponentPayloadLeaf,
    sel: StudentSelection,
    consumed: Seq<bool>,
) -> Outcome {
    match leaf {
        ComponentPayloadLeaf::CurriculumReference { curriculum_reference, .. } =>
            if reference_present(curriculum_reference, sel) {
                satisfied()
            } else {
                unsatisfied(Reason::ReferenceNotSelected)
            },
        ComponentPayloadLeaf::EquivalenceGroup { equivalence_group, .. } => if group_present(
            equivalence_group@,
            sel,
        ) {
            satisfied()
        } else {
            unsatisfied(Reason::NoEquivalentSelected)
        },
        ComponentPayloadLeaf::WildCardItem { wild_card_item, .. } => if first_fit(
            wild_card_item,
            sel.courses@,
            consumed,
            0,
        ) is Some {
            satisfied()
        } else {
            unsatisfied(Reason::NoWildcardMatch)
        },
    }
}

/// The status of each rule of a header, counting the courses that `credit`
/// marks.
pub open spec fn rule_statuses(
    rules: Seq<AuxiliaryRule>,
    sel: StudentSelection,
    credit: Seq<bool>,
) -> Seq<Status> {
    Seq::new(rules.len(), |k: int| rule_outcome(rules[k].rule, sel, credit).status)
}

/// The outcome of a node whose children have the given statuses.
pub open spec fn node_outcome(
    header: ComponentPayloadHeader,
    body: Seq<ComponentPayload>,
    sel: StudentSelection,
    statuses: Seq<Status>,
) -> Outcome {
    let credit = node_credit(header, body, sel);
    combine(
        children_part(header.rule_logic, statuses),
        rules_part(rule_statuses(header.auxiliary_rules@, sel, credit)),
        bounds_outcome(header, sel, credit),
    )
}

/// The outcome of a tree for a selection. For a leaf, `consumed` marks the
/// courses that a wildcard may not take; a node starts afresh.
pub open spec fn outcome_of(
    tree: ComponentPayload,
    sel: StudentSelection,
    consumed: Seq<bool>,
) -> Outcome
    decreases tree,
{
    match tree {
        ComponentPayload::Leaf(leaf) => leaf_outcome(leaf, sel, consumed),
        ComponentPayload::Node { header, body } => node_outcome(
            header,
            body@,
            sel,
            children_statuses(body@, sel, body@.len() as int),
        ),
    }
}

/// The statuses of the first `k` children of a node, each looked at with the
/// courses that were taken before it.
pub open spec fn children_statuses(
    body: Seq<ComponentPayload>,
    sel: StudentSelection,
    k: int,
) -> Seq<Status>
    decreases body, k,
{
    if k <= 0 || k > body.len() {
        Seq::empty()
    } else {
        children_statuses(body, sel, k - 1).push(
            outcome_of(body[k - 1], sel, consumed_before(body, sel.courses@, k - 1)).status,
        )
    }
}

/// The verdicts of a tree, in the shape of the tree: for a node, the verdict
/// of each rule and the verdicts of each child.
#[derive(Debug, PartialEq, Eq)]
pub struct VerdictTree {
    pub verdict: Verdict,
    pub rules: Vec<Verdict>,
    pub children: Vec<VerdictTree>,
}

/// Whether `out` holds the verdicts of `tree` for the selection: its shape is
/// that of the tree, and each verdict is the outcome of the part it stands
/// for.
pub open spec fn is_verdict_of(
    out: VerdictTree,
    tree: ComponentPayload,
    sel: StudentSelection,
    consumed: Seq<bool>,
) -> bool
    decreases tree,
{
    &&& out.verdict@ == outcome_of(tree, sel, consumed)
    &&& match tree {
        ComponentPayload::Leaf(_) => out.rules@.len() == 0 && out.children@.len() == 0,
        ComponentPayload::Node { header, body } => {
            &&& out.rules@.len() == header.auxiliary_rules@.len()
            &&& forall|k: int|
                0 <= k < out.rules@.len() ==> (#[trigger] out.rules@[k])@ == rule_outcome(
                    header.auxiliary_rules@[k].rule,
                    sel,
                    node_credit(header, body@, sel),
                )
            &&& out.children@.len() == body@.len()
            &&& forall|i: int|
                0 <= i < body@.len() ==> is_verdict_of(
                    #[trigger] out.children@[i],
                    body@[i],
                    sel,
                    consumed_before(body@, sel.courses@, i),
                )
        },
    }
}

/// Where a wildcard finds a course, the course is one of the selection, fits
/// the wildcard, and is not marked.
pub proof fn lemma_first_fit(
    w: WildCardItem,
    courses: Seq<SelectedCourse>,
    consumed: Seq<bool>,
    from: int,
)
    requires
        0 <= from,
    ensures
        match first_fit(w, courses, consumed, from) {
            Some(j) => from <= j < courses.len() && !credited(consumed, j) && wildcard_fits(
                w,
                courses[j],
            ),
            None => forall|j: int|
                from <= j < courses.len() ==> credited(consumed, j) || !wildcard_fits(
                    w,
                    #[trigger] courses[j],
                ),
        },
    decreases courses.len() - from,
{
    if from < courses.len() {
        if !credited(consumed, from) && wildcard_fits(w, courses[from]) {
        } else {
            lemma_first_fit(w, courses, consumed, from + 1);
        }
    }
}

/// The first course that fits the wildcard and is not marked in `consumed`.
pub fn find_first_fit(w: &WildCardItem, sel: &StudentSelection, consumed: &Vec<bool>) -> (r:
    Option<usize>)
    ensures
        match r {
            Some(j) => first_fit(*w, sel.courses@, consumed@, 0) == Some(j as int) && j
                < sel.courses@.len(),
            None => first_fit(*w, sel.courses@, consumed@, 0) is None,
        },
{
    let mut j: usize = 0;
    while j < sel.courses.len()
        invariant
            j <= sel.courses.len(),
            first_fit(*w, sel.courses@, consumed@, 0) == first_fit(
                *w,
                sel.courses@,
                consumed@,
                j as int,
            ),
        decreases sel.courses.len() - j,
    {
        let taken = j < consumed.len() && consumed[j];
        if !taken && fits_wildcard(w, &sel.courses[j]) {
            return Some(j);
        }
        j = j + 1;
    }
    None
}

/// Checks a leaf, where `consumed` marks the courses that a wildcard may not
/// take.
pub fn evaluate_leaf(leaf: &ComponentPayloadLeaf, sel: &StudentSelection, consumed: &Vec<bool>) -> (r:
    Verdict)
    ensures
        r@ == leaf_outcome(*leaf, *sel, consumed@),
{
    match leaf {
        ComponentPayloadLeaf::CurriculumReference { curriculum_reference, .. } => {
            if is_reference_present(curriculum_reference, sel) {
                Verdict::Satisfied
            } else {
                Verdict::failed(Reason::ReferenceNotSelected)
            }
        },
        ComponentPayloadLeaf::EquivalenceGroup { equivalence_group, .. } => {
            if is_group_present(equivalence_group, sel) {
                Verdict::Satisfied
            } else {
                Verdict::failed(Reason::NoEquivalentSelected)
            }
        },
        ComponentPayloadLeaf::WildCardItem { wild_card_item, .. } => {
            match find_first_fit(wild_card_item, sel, consumed) {
                Some(_) => Verdict::Satisfied,
                None => Verdict::failed(Reason::NoWildcardMatch),
            }
        },
    }
}

/// An equivalence group is satisfied exactly when the selection holds what
/// one of its members points to, and is failed otherwise; which courses a
/// wildcard may take makes no difference.
pub proof fn law_equivalence_group(
    leaf: ComponentPayloadLeaf,
    sel: StudentSelection,
    consumed: Seq<bool>,
)
    requires
        leaf is EquivalenceGroup,
    ensures
        group_present(leaf->equivalence_group@, sel) ==> leaf_outcome(leaf, sel, consumed).status
            == Status::Satisfied,
        !group_present(leaf->equivalence_group@, sel) ==> leaf_outcome(
            leaf,
            sel,
            consumed,
        ).status == Status::Unsatisfied,
{
}

/// The status of two checks that both have to hold.
pub fn worst_of(a: Status, b: Status) -> (r: Status)
    ensures
        r == worst(a, b),
{
    if a == Status::Unsatisfied || b == Status::Unsatisfied {
        Status::Unsatisfied
    } else if a == Status::Indeterminate || b == Status::Indeterminate {
        Status::Indeterminate
    } else {
        Status::Satisfied
    }
}

/// The status of two checks of which one has to hold.
pub fn best_of(a: Status, b: Status) -> (r: Status)
    ensures
        r == best(a, b),
{
    if a == Status::Satisfied || b == Status::Satisfied {
        Status::Satisfied
    } else if a == Status::Indeterminate || b == Status::Indeterminate {
        Status::Indeterminate
    } else {
        Status::Unsatisfied
    }
}

/// The status of checks that all have to hold.
pub fn status_all(statuses: &Vec<Status>) -> (r: Status)
    ensures
        r == all_of(statuses@, statuses@.len() as int),
{
    let mut acc = Status::Satisfied;
    let mut k: usize = 0;
    while k < statuses.len()
        invariant
            k <= statuses.len(),
            acc == all_of(statuses@, k as int),
        decreases statuses.len() - k,
    {
        acc = worst_of(acc, statuses[k]);
        k = k + 1;
    }
    acc
}

/// The status of checks of which one has to hold.
pub fn status_any(statuses: &Vec<Status>) -> (r: Status)
    ensures
        r == any_of(statuses@, statuses@.len() as int),
{
    let mut acc = Status::Unsatisfied;
    let mut k: usize = 0;
    while k < statuses.len()
        invariant
            k <= statuses.len(),
            acc == any_of(statuses@, k as int),
        decreases statuses.len() - k,
    {
        acc = best_of(acc, statuses[k]);
        k = k + 1;
    }
    acc
}

/// One reason for each child that is not satisfied, in order.
pub fn unmet_children(statuses: &Vec<Status>) -> (r: Vec<Reason>)
    ensures
        r@ == child_reasons(statuses@, statuses@.len() as int),
{
    let mut out: Vec<Reason> = Vec::new();
    let mut k: usize = 0;
    while k < statuses.len()
        invariant
            k <= statuses.len(),
            out@ == child_reasons(statuses@, k as int),
        decreases statuses.len() - k,
    {
        if statuses[k] != Status::Satisfied {
            out.push(Reason::ChildNotSatisfied { index: k });
        }
        k = k + 1;
    }
    out
}

/// One reason for each rule that is not satisfied, in order.
pub fn unmet_rules(statuses: &Vec<Status>) -> (r: Vec<Reason>)
    ensures
        r@ == rule_reasons(statuses@, statuses@.len() as int),
{
    let mut out: Vec<Reason> = Vec::new();
    let mut k: usize = 0;
    while k < statuses.len()
        invariant
            k <= statuses.len(),
            out@ == rule_reasons(statuses@, k as int),
        decreases statuses.len() - k,
    {
        if statuses[k] != Status::Satisfied {
            out.push(Reason::RuleNotSatisfied { index: k });
        }
        k = k + 1;
    }
    out
}

/// The verdict with the given status and reasons; a passed check carries no
/// reasons.
pub fn verdict_from(status: Status, reasons: Vec<Reason>) -> (r: Verdict)
    ensures
        r@ == outcome(status, reasons@),
{
    match status {
        Status::Satisfied => Verdict::Satisfied,
        Status::Unsatisfied => Verdict::Unsatisfied { reasons },
        Status::Indeterminate => Verdict::Indeterminate { reasons },
    }
}

/// The reasons of a verdict.
pub fn into_reasons(v: Verdict) -> (r: Vec<Reason>)
    ensures
        r@ == v@.reasons,
{
    match v {
        Verdict::Satisfied => Vec::new(),
        Verdict::Unsatisfied { reasons } => reasons,
        Verdict::Indeterminate { reasons } => reasons,
    }
}

/// What the children of a node come to under its logic.
pub fn fold_children(logic: &Option<RuleLogic>, statuses: &Vec<Status>) -> (r: Verdict)
    ensures
        r@ == children_part(*logic, statuses@),
{
    match logic {
        Some(RuleLogic::Unknown(text)) => {
            let mut reasons: Vec<Reason> = Vec::new();
            reasons.push(Reason::UnknownLogic { text: text.clone() });
            assert(reasons@ =~= seq![Reason::UnknownLogic { text: *text }]);
            Verdict::Indeterminate { reasons }
        },
        Some(RuleLogic::Or) => {
            if statuses.len() == 0 {
                Verdict::Satisfied
            } else {
                verdict_from(status_any(statuses), unmet_children(statuses))
            }
        },
        _ => verdict_from(status_all(statuses), unmet_children(statuses)),
    }
}

/// What the rules of a node come to.
pub fn fold_rules(statuses: &Vec<Status>) -> (r: Verdict)
    ensures
        r@ == rules_part(statuses@),
{
    verdict_from(status_all(statuses), unmet_rules(statuses))
}

/// The verdict of a node from its three parts.
pub fn merge(children: Verdict, rules: Verdict, bounds: Verdict) -> (r: Verdict)
    ensures
        r@ == combine(children@, rules@, bounds@),
{
    let status = worst_of(worst_of(children.status(), rules.status()), bounds.status());
    let mut reasons = into_reasons(children);
    let mut of_rules = into_reasons(rules);
    let mut of_bounds = into_reasons(bounds);
    reasons.append(&mut of_rules);
    reasons.append(&mut of_bounds);
    verdict_from(status, reasons)
}

/// Whether a leaf among `body` points to the course by its code.
pub fn is_specific_taken(body: &Vec<ComponentPayload>, c: &SelectedCourse) -> (r: bool)
    ensures
        r == specific_taken(body@, *c),
{
    let mut i: usize = 0;
    while i < body.len()
        invariant
            i <= body.len(),
            forall|k: int|
                0 <= k < i ==> !((#[trigger] body@[k]) is Leaf && leaf_names(body@[k]->Leaf_0, *c)),
        decreases body.len() - i,
    {
        match &body[i] {
            ComponentPayload::Leaf(leaf) => {
                if leaf_names_course(leaf, c) {
                    return true;
                }
            },
            ComponentPayload::Node { .. } => {},
        }
        i = i + 1;
    }
    false
}

/// Marks the courses that the references and groups among `body` name.
pub fn mark_specific(body: &Vec<ComponentPayload>, sel: &StudentSelection) -> (r: Vec<bool>)
    ensures
        r@ == initial_consumed(body@, sel.courses@),
{
    let mut out: Vec<bool> = Vec::new();
    let mut j: usize = 0;
    while j < sel.courses.len()
        invariant
            j <= sel.courses.len(),
            out@.len() == j,
            forall|k: int| 0 <= k < j ==> out@[k] == specific_taken(body@, sel.courses@[k]),
        decreases sel.courses.len() - j,
    {
        out.push(is_specific_taken(body, &sel.courses[j]));
        j = j + 1;
    }
    assert(out@ =~= initial_consumed(body@, sel.courses@));
    out
}

/// Marks the course that `child` takes, if it is a wildcard that finds one.
pub fn advance(child: &ComponentPayload, sel: &StudentSelection, taken: &mut Vec<bool>)
    requires
        old(taken)@.len() == sel.courses@.len(),
    ensures
        final(taken)@ == after_child(*child, sel.courses@, old(taken)@),
        final(taken)@.len() == sel.courses@.len(),
{
    match child {
        ComponentPayload::Leaf(ComponentPayloadLeaf::WildCardItem { wild_card_item, .. }) => {
            match find_first_fit(wild_card_item, sel, taken) {
                Some(j) => {
                    taken[j] = true;
                },
                None => {},
            }
        },
        _ => {},
    }
}

/// Evaluates a tree, where `consumed` marks the courses that a wildcard at
/// the root may not take. The result has the shape of the tree.
pub fn evaluate_in(tree: &ComponentPayload, sel: &StudentSelection, consumed: &Vec<bool>) -> (r:
    VerdictTree)
    ensures
        is_verdict_of(r, *tree, *sel, consumed@),
    decreases *tree,
{
    match tree {
        ComponentPayload::Leaf(leaf) => VerdictTree {
            verdict: evaluate_leaf(leaf, sel, consumed),
            rules: Vec::new(),
            children: Vec::new(),
        },
        ComponentPayload::Node { header, body } => {
            let mut taken = mark_specific(body, sel);
            let mut children: Vec<VerdictTree> = Vec::new();
            let mut statuses: Vec<Status> = Vec::new();
            let mut i: usize = 0;
            while i < body.len()
                invariant
                    *tree is Node,
                    *body == tree->body,
                    i <= body.len(),
                    taken@ == consumed_before(body@, sel.courses@, i as int),
                    taken@.len() == sel.courses@.len(),
                    children@.len() == i,
                    statuses@ == children_statuses(body@, *sel, i as int),
                    forall|j: int|
                        0 <= j < i ==> is_verdict_of(
                            #[trigger] children@[j],
                            body@[j],
                            *sel,
                            consumed_before(body@, sel.courses@, j),
                        ),
                decreases body.len() - i,
            {
                proof {
                    assert(decreases_to!(tree->body => tree->body[i as int]));
                }
                let child = evaluate_in(&body[i], sel, &taken);
                statuses.push(child.verdict.status());
                advance(&body[i], sel, &mut taken);
                children.push(child);
                i = i + 1;
            }
            let credit = compute_credit(header, body, sel);
            let rules = &header.auxiliary_rules;
            let mut rule_verdicts: Vec<Verdict> = Vec::new();
            let mut of_rules: Vec<Status> = Vec::new();
            let mut k: usize = 0;
            while k < rules.len()
                invariant
                    k <= rules.len(),
                    rule_verdicts@.len() == k,
                    of_rules@.len() == k,
                    forall|m: int|
                        0 <= m < k ==> (#[trigger] rule_verdicts@[m])@ == rule_outcome(
                            rules@[m].rule,
                            *sel,
                            credit@,
                        ),
                    forall|m: int|
                        0 <= m < k ==> #[trigger] of_rules@[m] == rule_outcome(
                            rules@[m].rule,
                            *sel,
                            credit@,
                        ).status,
                decreases rules.len() - k,
            {
                let v = evaluate_rule_credited(&rules[k].rule, sel, &credit);
                of_rules.push(v.status());
                rule_verdicts.push(v);
                k = k + 1;
            }
            assert(of_rules@ =~= rule_statuses(rules@, *sel, credit@));
            let verdict = merge(
                fold_children(&header.rule_logic, &statuses),
                fold_rules(&of_rules),
                evaluate_bounds(header, sel, &credit),
            );
            VerdictTree { verdict, rules: rule_verdicts, children }
        },
    }
}

/// Evaluates a selection against a requirement tree. The result has the
/// shape of the tree, and its root verdict is the outcome of the whole tree.
pub fn evaluate(tree: &ComponentPayload, sel: &StudentSelection) -> (r: VerdictTree)
    ensures
        is_verdict_of(r, *tree, *sel, none_consumed(sel.courses@.len())),
        r.verdict@ == outcome_of(*tree, *sel, none_consumed(sel.courses@.len())),
{
    let mut consumed: Vec<bool> = Vec::new();
    let mut j: usize = 0;
    while j < sel.courses.len()
        invariant
            j <= sel.courses.len(),
            consumed@.len() == j,
            forall|k: int| 0 <= k < j ==> !consumed@[k],
        decreases sel.courses.len() - j,
    {
        consumed.push(false);
        j = j + 1;
    }
    assert(consumed@ =~= none_consumed(sel.courses@.len()));
    evaluate_in(tree, sel, &consumed)
}

/// The course that the child at position `k` takes: the first free course
/// that fits it where it is a wildcard, none for any other child.
pub open spec fn taken_by(
    body: Seq<ComponentPayload>,
    courses: Seq<SelectedCourse>,
    k: int,
) -> Option<int> {
    match body[k] {
        ComponentPayload::Leaf(ComponentPayloadLeaf::WildCardItem { wild_card_item, .. }) =>
            first_fit(wild_card_item, courses, consumed_before(body, courses, k), 0),
        _ => None,
    }
}

/// The mask of taken courses has one entry for each course of the selection.
pub proof fn lemma_consumed_len(
    body: Seq<ComponentPayload>,
    courses: Seq<SelectedCourse>,
    k: int,
)
    requires
        0 <= k <= body.len(),
    ensures
        consumed_before(body, courses, k).len() == courses.len(),
    decreases k,
{
    if k > 0 {
        lemma_consumed_len(body, courses, k - 1);
        match body[k - 1] {
            ComponentPayload::Leaf(ComponentPayloadLeaf::WildCardItem { wild_card_item, .. }) => {
                lemma_first_fit(wild_card_item, courses, consumed_before(body, courses, k - 1), 0);
            },
            _ => {},
        }
    }
}

/// A course that is taken stays taken for every later child.
pub proof fn lemma_marks_persist(
    body: Seq<ComponentPayload>,
    courses: Seq<SelectedCourse>,
    k: int,
    later: int,
    j: int,
)
    requires
        0 <= k <= later <= body.len(),
        credited(consumed_before(body, courses, k), j),
    ensures
        credited(consumed_before(body, courses, later), j),
    decreases later - k,
{
    if k < later {
        lemma_marks_persist(body, courses, k, later - 1, j);
        lemma_consumed_len(body, courses, later - 1);
        match body[later - 1] {
            ComponentPayload::Leaf(ComponentPayloadLeaf::WildCardItem { wild_card_item, .. }) => {
                lemma_first_fit(
                    wild_card_item,
                    courses,
                    consumed_before(body, courses, later - 1),
                    0,
                );
            },
            _ => {},
        }
    }
}

/// No course fills two wildcards of one node: what an earlier wildcard took,
/// no later one takes.
pub proof fn law_no_course_fills_two_wildcards(
    body: Seq<ComponentPayload>,
    courses: Seq<SelectedCourse>,
    i: int,
    k: int,
)
    requires
        0 <= i < k < body.len(),
        taken_by(body, courses, i) is Some,
        taken_by(body, courses, k) is Some,
    ensures
        taken_by(body, courses, i) != taken_by(body, courses, k),
{
    let a = taken_by(body, courses, i)->Some_0;
    let before_i = consumed_before(body, courses, i);
    let before_k = consumed_before(body, courses, k);
    lemma_consumed_len(body, courses, i);
    match body[i] {
        ComponentPayload::Leaf(ComponentPayloadLeaf::WildCardItem { wild_card_item, .. }) => {
            lemma_first_fit(wild_card_item, courses, before_i, 0);
        },
        _ => {},
    }
    assert(credited(consumed_before(body, courses, i + 1), a));
    lemma_marks_persist(body, courses, i + 1, k, a);
    match body[k] {
        ComponentPayload::Leaf(ComponentPayloadLeaf::WildCardItem { wild_card_item, .. }) => {
            lemma_first_fit(wild_card_item, courses, before_k, 0);
        },
        _ => {},
    }
}

/// A wildcard never takes a course that a reference or a group of the same
/// node names, and the course it takes fits it.
pub proof fn law_wildcard_leaves_named_courses(
    body: Seq<ComponentPayload>,
    courses: Seq<SelectedCourse>,
    k: int,
)
    requires
        0 <= k < body.len(),
        taken_by(body, courses, k) is Some,
    ensures
        0 <= taken_by(body, courses, k)->Some_0 < courses.len(),
        !specific_taken(body, courses[taken_by(body, courses, k)->Some_0]),
        body[k] matches ComponentPayload::Leaf(
            ComponentPayloadLeaf::WildCardItem { wild_card_item, .. },
        ) && wildcard_fits(wild_card_item, courses[taken_by(body, courses, k)->Some_0]),
{
    let a = taken_by(body, courses, k)->Some_0;
    let before_k = consumed_before(body, courses, k);
    match body[k] {
        ComponentPayload::Leaf(ComponentPayloadLeaf::WildCardItem { wild_card_item, .. }) => {
            lemma_first_fit(wild_card_item, courses, before_k, 0);
        },
        _ => {},
    }
    if specific_taken(body, courses[a]) {
        assert(credited(consumed_before(body, courses, 0), a));
        lemma_marks_persist(body, courses, 0, k, a);
    }
}

/// Where one of the first `k` checks did not pass, they do not pass as a
/// whole.
pub proof fn lemma_all_of(s: Seq<Status>, k: int, i: int)
    requires
        0 <= i < k,
        s[i] != Status::Satisfied,
    ensures
        all_of(s, k) != Status::Satisfied,
    decreases k,
{
    if i < k - 1 {
        lemma_all_of(s, k - 1, i);
    }
}

/// A node never passes while one of its rules is of no known form: whatever
/// the selection holds and whatever its children come to, the node is failed
/// or undecided.
pub proof fn law_unknown_rule_keeps_node_from_passing(
    tree: ComponentPayload,
    sel: StudentSelection,
    consumed: Seq<bool>,
    k: int,
)
    requires
        tree is Node,
        0 <= k < tree->header.auxiliary_rules@.len(),
        tree->header.auxiliary_rules@[k].rule is ArUnknown,
    ensures
        outcome_of(tree, sel, consumed).status != Status::Satisfied,
{
    let header = tree->header;
    let credit = node_credit(header, tree->body@, sel);
    let statuses = rule_statuses(header.auxiliary_rules@, sel, credit);
    assert(statuses[k] == Status::Indeterminate);
    lemma_all_of(statuses, statuses.len() as int, k);
}

/// The verdicts of a program's requirements: one tree for each component,
/// and the verdict of the program as a whole.
#[derive(Debug, PartialEq, Eq)]
pub struct ProgramVerdict {
    pub verdict: Verdict,
    pub components: Vec<VerdictTree>,
}

/// The status of each component of a program for a selection.
pub open spec fn component_statuses(components: Seq<Component>, sel: StudentSelection) -> Seq<
    Status,
> {
    Seq::new(
        components.len(),
        |i: int| outcome_of(components[i].payload, sel, none_consumed(sel.courses@.len())).status,
    )
}

/// The outcome of a program for a selection: every component has to hold,
/// and the units of the whole selection have to lie within the bounds of the
/// program. The reasons name the components that do not hold, then the bound
/// that does not.
pub open spec fn program_outcome(requirements: ProgramRequirements, sel: StudentSelection) -> Outcome {
    combine(
        children_part(None, component_statuses(requirements.components@, sel)),
        satisfied(),
        limits_outcome(
            requirements.units_minimum,
            requirements.units_maximum,
            sel,
            all_credited(sel.courses@.len()),
        ),
    )
}

/// Evaluates a selection against the requirements of a program: each
/// component on its own, and the bounds of the program on the whole
/// selection.
pub fn evaluate_program(requirements: &ProgramRequirements, sel: &StudentSelection) -> (r:
    ProgramVerdict)
    ensures
        r.verdict@ == program_outcome(*requirements, *sel),
        r.components@.len() == requirements.components@.len(),
        forall|i: int|
            0 <= i < requirements.components@.len() ==> is_verdict_of(
                #[trigger] r.components@[i],
                requirements.components@[i].payload,
                *sel,
                none_consumed(sel.courses@.len()),
            ),
{
    let mut credit: Vec<bool> = Vec::new();
    let mut j: usize = 0;
    while j < sel.courses.len()
        invariant
            j <= sel.courses.len(),
            credit@.len() == j,
            forall|k: int| 0 <= k < j ==> credit@[k],
        decreases sel.courses.len() - j,
    {
        credit.push(true);
        j = j + 1;
    }
    assert(credit@ =~= all_credited(sel.courses@.len()));
    let mut components: Vec<VerdictTree> = Vec::new();
    let mut statuses: Vec<Status> = Vec::new();
    let mut i: usize = 0;
    while i < requirements.components.len()
        invariant
            i <= requirements.components.len(),
            components@.len() == i,
            statuses@.len() == i,
            forall|k: int|
                0 <= k < i ==> is_verdict_of(
                    #[trigger] components@[k],
                    requirements.components@[k].payload,
                    *sel,
                    none_consumed(sel.courses@.len()),
                ),
            forall|k: int|
                0 <= k < i ==> #[trigger] statuses@[k] == outcome_of(
                    requirements.components@[k].payload,
                    *sel,
                    none_consumed(sel.courses@.len()),
                ).status,
        decreases requirements.components.len() - i,
    {
        let tree = evaluate(&requirements.components[i].payload, sel);
        statuses.push(tree.verdict.status());
        components.push(tree);
        i = i + 1;
    }
    assert(statuses@ =~= component_statuses(requirements.components@, *sel));
    let verdict = merge(
        fold_children(&None, &statuses),
        Verdict::Satisfied,
        evaluate_limits(requirements.units_minimum, requirements.units_maximum, sel, &credit),
    );
    ProgramVerdict { verdict, components }
}

} // verus!
