//! Verdicts written as document values, in the shape of the tree they were
//! made for.
use crate::eval::VerdictTree;
use crate::json::{
    lemma_member_models, lemma_models, lemma_models_prefix, member_models, model, models,
    JsonMember, JsonModel, JsonValue,
};
use crate::verdict::{Outcome, Reason, Status, Verdict};
use vstd::prelude::*;

verus! {

/// The word for a status.
pub open spec fn status_name(s: Status) -> Seq<char> {
    match s {
        Status::Satisfied => "satisfied"@,
        Status::Unsatisfied => "unsatisfied"@,
        Status::Indeterminate => "indeterminate"@,
    }
}

/// The word for the kind of a reason.
pub open spec fn reason_name(r: Reason) -> Seq<char> {
    match r {
        Reason::ReferenceNotSelected => "referenceNotSelected"@,
        Reason::NoEquivalentSelected => "noEquivalentSelected"@,
        Reason::NoWildcardMatch => "noWildcardMatch"@,
        Reason::ChildNotSatisfied { .. } => "childNotSatisfied"@,
        Reason::RuleNotSatisfied { .. } => "ruleNotSatisfied"@,
        Reason::UnknownLogic { .. } => "unknownLogic"@,
        Reason::UnitsBelowMinimum => "unitsBelowMinimum"@,
        Reason::UnitsAboveMaximum => "unitsAboveMaximum"@,
        Reason::TooFewUnits => "tooFewUnits"@,
        Reason::TooManyUnits => "tooManyUnits"@,
        Reason::CompanionPlanMissing => "companionPlanMissing"@,
        Reason::PlansConflict => "plansConflict"@,
        Reason::DisciplineOverLimit => "disciplineOverLimit"@,
        Reason::MissingCatalogData => "missingCatalogData"@,
        Reason::MissingProgramData => "missingProgramData"@,
        Reason::MissingDiscipline => "missingDiscipline"@,
        Reason::NeedsAttention => "needsAttention"@,
        Reason::UnknownRule { .. } => "unknownRule"@,
    }
}

/// A position as a document number; one beyond `i64` is written as the
/// largest.
pub open spec fn index_value(i: usize) -> i64 {
    if i <= i64::MAX {
        i as i64
    } else {
        i64::MAX
    }
}

/// What else a reason carries: the position of the child or rule, or the
/// text that was kept.
pub open spec fn reason_detail(r: Reason) -> Seq<(Seq<char>, JsonModel)> {
    match r {
        Reason::ChildNotSatisfied { index } => seq![("index"@, JsonModel::Int(index_value(index)))],
        Reason::RuleNotSatisfied { index } => seq![("index"@, JsonModel::Int(index_value(index)))],
        Reason::UnknownLogic { text } => seq![("text"@, JsonModel::Str(text@))],
        Reason::UnknownRule { text } => seq![("text"@, JsonModel::Str(text@))],
        _ => Seq::empty(),
    }
}

/// A reason as a document value: an object with the member `kind` and, where
/// the reason carries one, `index` or `text`.
pub open spec fn reason_model(r: Reason) -> JsonModel {
    JsonModel::Obj(seq![("kind"@, JsonModel::Str(reason_name(r)))] + reason_detail(r))
}

/// The members `status` and `reasons` of an outcome.
pub open spec fn outcome_members(o: Outcome) -> Seq<(Seq<char>, JsonModel)> {
    seq![
        ("status"@, JsonModel::Str(status_name(o.status))),
        (
            "reasons"@,
            JsonModel::Arr(Seq::new(o.reasons.len(), |i: int| reason_model(o.reasons[i]))),
        ),
    ]
}

/// A verdict as a document value: an object with the members `status` and
/// `reasons`.
pub open spec fn verdict_model(v: Verdict) -> JsonModel {
    JsonModel::Obj(outcome_members(v@))
}

/// A verdict tree as a document value: the members `status` and `reasons`
/// of its verdict, then `rules` with the verdict of each rule and `children`
/// with the tree of each child.
pub open spec fn tree_model(t: VerdictTree) -> JsonModel
    decreases t,
{
    JsonModel::Obj(
        outcome_members(t.verdict@) + seq![
            (
                "rules"@,
                JsonModel::Arr(Seq::new(t.rules@.len(), |i: int| verdict_model(t.rules@[i]))),
            ),
            ("children"@, JsonModel::Arr(tree_models(t.children@, t.children@.len() as int))),
        ],
    )
}

/// The first `k` of the trees as document values.
pub open spec fn tree_models(trees: Seq<VerdictTree>, k: int) -> Seq<JsonModel>
    decreases trees, k,
{
    if k <= 0 || k > trees.len() {
        Seq::empty()
    } else {
        tree_models(trees, k - 1).push(tree_model(trees[k - 1]))
    }
}

/// The word for a status.
pub fn status_word(s: Status) -> (r: &'static str)
    ensures
        r@ == status_name(s),
{
    match s {
        Status::Satisfied => "satisfied",
        Status::Unsatisfied => "unsatisfied",
        Status::Indeterminate => "indeterminate",
    }
}

/// The word for the kind of a reason.
pub fn reason_word(r: &Reason) -> (w: &'static str)
    ensures
        w@ == reason_name(*r),
{
    match r {
        Reason::ReferenceNotSelected => "referenceNotSelected",
        Reason::NoEquivalentSelected => "noEquivalentSelected",
        Reason::NoWildcardMatch => "noWildcardMatch",
        Reason::ChildNotSatisfied { .. } => "childNotSatisfied",
        Reason::RuleNotSatisfied { .. } => "ruleNotSatisfied",
        Reason::UnknownLogic { .. } => "unknownLogic",
        Reason::UnitsBelowMinimum => "unitsBelowMinimum",
        Reason::UnitsAboveMaximum => "unitsAboveMaximum",
        Reason::TooFewUnits => "tooFewUnits",
        Reason::TooManyUnits => "tooManyUnits",
        Reason::CompanionPlanMissing => "companionPlanMissing",
        Reason::PlansConflict => "plansConflict",
        Reason::DisciplineOverLimit => "disciplineOverLimit",
        Reason::MissingCatalogData => "missingCatalogData",
        Reason::MissingProgramData => "missingProgramData",
        Reason::MissingDiscipline => "missingDiscipline",
        Reason::NeedsAttention => "needsAttention",
        Reason::UnknownRule { .. } => "unknownRule",
    }
}

/// A member of an object.
pub fn member(name: &str, value: JsonValue) -> (r: JsonMember)
    ensures
        r.name@ == name@,
        r.value == value,
{
    JsonMember { name: String::from_str(name), value }
}

/// A position as a document number.
pub fn index_number(i: usize) -> (r: JsonValue)
    ensures
        r@ == JsonModel::Int(index_value(i)),
{
    let wide: u64 = i as u64;
    if wide <= 9223372036854775807 {
        JsonValue::Int(wide as i64)
    } else {
        JsonValue::Int(9223372036854775807)
    }
}

/// A reason as a document value.
pub fn reason_json(r: &Reason) -> (v: JsonValue)
    ensures
        v@ == reason_model(*r),
{
    let mut members: Vec<JsonMember> = Vec::new();
    members.push(member("kind", JsonValue::Str(String::from_str(reason_word(r)))));
    match r {
        Reason::ChildNotSatisfied { index } => {
            members.push(member("index", index_number(*index)));
        },
        Reason::RuleNotSatisfied { index } => {
            members.push(member("index", index_number(*index)));
        },
        Reason::UnknownLogic { text } => {
            members.push(member("text", JsonValue::Str(text.clone())));
        },
        Reason::UnknownRule { text } => {
            members.push(member("text", JsonValue::Str(text.clone())));
        },
        _ => {},
    }
    proof {
        lemma_member_models(members@, members@.len() as int);
        assert(member_models(members@, members@.len() as int) =~= seq![
            ("kind"@, JsonModel::Str(reason_name(*r))),
        ] + reason_detail(*r));
    }
    JsonValue::Obj(members)
}

/// The reasons of a verdict as document values.
pub fn reasons_json(reasons: &Vec<Reason>) -> (v: JsonValue)
    ensures
        v@ == JsonModel::Arr(Seq::new(reasons@.len(), |i: int| reason_model(reasons@[i]))),
{
    let mut items: Vec<JsonValue> = Vec::new();
    let mut i: usize = 0;
    while i < reasons.len()
        invariant
            i <= reasons.len(),
            items@.len() == i,
            forall|j: int| 0 <= j < i ==> model(#[trigger] items@[j]) == reason_model(reasons@[j]),
        decreases reasons.len() - i,
    {
        items.push(reason_json(&reasons[i]));
        i = i + 1;
    }
    proof {
        lemma_models(items@, items@.len() as int);
        assert(models(items@, items@.len() as int) =~= Seq::new(
            reasons@.len(),
            |i: int| reason_model(reasons@[i]),
        ));
    }
    JsonValue::Arr(items)
}

/// The members `status` and `reasons` of a verdict.
pub fn verdict_members(v: &Verdict) -> (r: Vec<JsonMember>)
    ensures
        member_models(r@, r@.len() as int) == outcome_members(v@),
        r@.len() == 2,
{
    let mut members: Vec<JsonMember> = Vec::new();
    members.push(member("status", JsonValue::Str(String::from_str(status_word(v.status())))));
    let reasons = match v {
        Verdict::Satisfied => {
            let none: Vec<Reason> = Vec::new();
            reasons_json(&none)
        },
        Verdict::Unsatisfied { reasons } => reasons_json(reasons),
        Verdict::Indeterminate { reasons } => reasons_json(reasons),
    };
    members.push(member("reasons", reasons));
    proof {
        lemma_member_models(members@, members@.len() as int);
        assert(member_models(members@, members@.len() as int) =~= outcome_members(v@));
    }
    members
}

/// A verdict as a document value.
pub fn verdict_json(v: &Verdict) -> (r: JsonValue)
    ensures
        r@ == verdict_model(*v),
{
    JsonValue::Obj(verdict_members(v))
}

/// A verdict tree as a document value, in the shape of the tree.
pub fn tree_json(t: &VerdictTree) -> (r: JsonValue)
    ensures
        r@ == tree_model(*t),
    decreases *t,
{
    let mut members = verdict_members(&t.verdict);
    let mut rules: Vec<JsonValue> = Vec::new();
    let mut k: usize = 0;
    while k < t.rules.len()
        invariant
            k <= t.rules.len(),
            rules@.len() == k,
            forall|j: int| 0 <= j < k ==> model(#[trigger] rules@[j]) == verdict_model(t.rules@[j]),
        decreases t.rules.len() - k,
    {
        rules.push(verdict_json(&t.rules[k]));
        k = k + 1;
    }
    let mut children: Vec<JsonValue> = Vec::new();
    let mut i: usize = 0;
    while i < t.children.len()
        invariant
            i <= t.children.len(),
            children@.len() == i,
            models(children@, i as int) == tree_models(t.children@, i as int),
        decreases t.children.len() - i,
    {
        proof {
            assert(decreases_to!(t.children => t.children[i as int]));
        }
        let ghost before = children@;
        children.push(tree_json(&t.children[i]));
        proof {
            lemma_models_prefix(before, children@, i as int);
        }
        i = i + 1;
    }
    proof {
        lemma_models(rules@, rules@.len() as int);
        assert(models(rules@, rules@.len() as int) =~= Seq::new(
            t.rules@.len(),
            |i: int| verdict_model(t.rules@[i]),
        ));
    }
    let ghost head = members@;
    members.push(member("rules", JsonValue::Arr(rules)));
    members.push(member("children", JsonValue::Arr(children)));
    proof {
        lemma_member_models(head, 2);
        lemma_member_models(members@, 4);
        assert(member_models(members@, 4) =~= outcome_members(t.verdict@) + seq![
            (
                "rules"@,
                JsonModel::Arr(Seq::new(t.rules@.len(), |i: int| verdict_model(t.rules@[i]))),
            ),
            ("children"@, JsonModel::Arr(tree_models(t.children@, t.children@.len() as int))),
        ]);
    }
    JsonValue::Obj(members)
}

} // verus!
