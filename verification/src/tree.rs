//! The requirement tree of a program: nodes with a header and children, and
//! leaves that name what can fill a slot.
use crate::json::{JsonValue, Param};
use crate::part::PartLabel;
use crate::rule::AuxiliaryRule;
use vstd::prelude::*;

verus! {

/// How a node combines the results of its children.
#[derive(Debug, PartialEq, Eq)]
pub enum RuleLogic {
    /// Every child is required.
    And,
    /// One child is enough.
    Or,
    /// A way of combining that is not understood; its wording is kept.
    Unknown(String),
}

/// A "choose one of" construct attached to a node, kept as the document gives
/// it.
#[derive(Debug, PartialEq, Eq)]
pub struct SelectionRule {
    pub code: String,
    pub text: String,
    pub params: Vec<Param>,
}

/// What a node says of itself.
#[derive(Debug, PartialEq, Eq)]
pub struct ComponentPayloadHeader {
    pub part_uid: Option<String>,
    /// The label of the node, where the document gives a readable one.
    pub part: Option<PartLabel>,
    /// How the children combine; absent where the document does not say.
    pub rule_logic: Option<RuleLogic>,
    pub units_min: Option<i64>,
    pub units_max: Option<i64>,
    pub auxiliary_rules: Vec<AuxiliaryRule>,
    pub selection_rule: Option<SelectionRule>,
    pub title: String,
    pub summary_description: Option<String>,
    pub part_type: Option<String>,
    pub notes: Option<String>,
}

/// A pointer to an entry of the catalog: a course, or a program or plan.
#[derive(Debug, PartialEq, Eq)]
pub struct CurriculumReference {
    /// The code of the entry, as the catalog writes it.
    pub code: Option<String>,
    pub name: String,
    pub kind: String,
    pub subtype: Option<String>,
    pub org_code: String,
    pub org_name: String,
    pub state: String,
    pub version: JsonValue,
    pub from_year: Option<String>,
    pub from_term: Option<String>,
    pub latest_version: Option<bool>,
    pub units_minimum: Option<i64>,
    pub units_maximum: Option<i64>,
}

/// A class of courses, named by a pattern over the course code and, where
/// given, by the organisation that offers them.
///
/// In `code` a `*` stands for any one character; the pattern has to fit the
/// start of the course code.
#[derive(Debug, PartialEq, Eq)]
pub struct WildCardItem {
    pub code: String,
    pub org_name: Option<String>,
    pub org_code: Option<String>,
    pub include_child_orgs: bool,
    pub kind: String,
}

/// One member of an equivalence group.
#[derive(Debug, PartialEq, Eq)]
pub struct EquivalenceGroup {
    pub order_number: i64,
    pub notes: Option<String>,
    pub curriculum_reference: CurriculumReference,
}

/// What can fill one slot of a requirement.
#[derive(Debug, PartialEq, Eq)]
pub enum ComponentPayloadLeaf {
    /// One catalog entry.
    CurriculumReference {
        order_number: Option<i64>,
        notes: Option<String>,
        curriculum_reference: CurriculumReference,
    },
    /// Any one of several catalog entries.
    EquivalenceGroup {
        order_number: Option<i64>,
        notes: Option<String>,
        equivalence_group: Vec<EquivalenceGroup>,
    },
    /// Any course of a class.
    WildCardItem { order_number: Option<i64>, notes: Option<String>, wild_card_item: WildCardItem },
}

/// A requirement tree. Children are owned by their node, so a subtree has
/// exactly one parent.
#[derive(Debug, PartialEq, Eq)]
pub enum ComponentPayload {
    Node { header: ComponentPayloadHeader, body: Vec<ComponentPayload> },
    Leaf(ComponentPayloadLeaf),
}

/// A named top-level entry of a program's requirements.
#[derive(Debug, PartialEq, Eq)]
pub struct Component {
    pub internal_component_identifier: i64,
    pub component_integration_identifier: String,
    pub name: String,
    pub kind: String,
    pub payload: ComponentPayload,
}

/// The period in which a set of requirements applies.
#[derive(Debug, Clone, PartialEq, Eq)]
pub struct ApplicablePeriod {
    pub from_year: String,
    pub from_term: String,
    pub to_year: Option<String>,
    pub to_term: Option<String>,
}

/// The requirements of one program in one year.
#[derive(Debug, PartialEq, Eq)]
pub struct ProgramRequirements {
    /// The code of the program, where the document gives one.
    pub code: Option<String>,
    pub name: Option<String>,
    pub year_applied: Option<String>,
    pub applicable_period: Option<ApplicablePeriod>,
    pub units_minimum: Option<i64>,
    pub units_maximum: Option<i64>,
    pub components: Vec<Component>,
}

impl ComponentPayloadHeader {
    /// A header that says nothing: no label, no logic, no bounds, no rules,
    /// and an empty title.
    pub fn empty() -> (r: ComponentPayloadHeader)
        ensures
            r.part_uid is None,
            r.part is None,
            r.rule_logic is None,
            r.units_min is None,
            r.units_max is None,
            r.auxiliary_rules@.len() == 0,
            r.selection_rule is None,
            r.title@.len() == 0,
            r.summary_description is None,
            r.part_type is None,
            r.notes is None,
    {
        ComponentPayloadHeader {
            part_uid: None,
            part: None,
            rule_logic: None,
            units_min: None,
            units_max: None,
            auxiliary_rules: Vec::new(),
            selection_rule: None,
            title: String::new(),
            summary_description: None,
            part_type: None,
            notes: None,
        }
    }
}

} // verus!
