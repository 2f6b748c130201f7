//! Reading a requirement document into the typed tree.
//!
//! Reading is tolerant. A field that the document may leave out is optional
//! in the tree. A rule that cannot be read as a known form becomes the
//! fallback form. A leaf that lacks what identifies it is left out, and a
//! record says where; its siblings are read as usual.
use crate::classify::{classify_model, classify_rule};
use crate::json::{
    bool_field, field, int_field, items_field, lemma_models, model, models, opt_text,
    param_models, text_field, JsonModel, JsonValue, Param, ParamModel,
};
use crate::part::{parse_part_label, spec_parse_part_label, PartLabel, PartSymbol};
use crate::rule::{AuxiliaryRule, RuleModel};
use crate::text::{same_ignoring_case, same_text_ignoring_case};
use crate::tree::{
    ComponentPayload, ComponentPayloadHeader, ComponentPayloadLeaf, CurriculumReference,
    EquivalenceGroup, RuleLogic, SelectionRule, WildCardItem,
};
use vstd::prelude::*;

verus! {

/// What was left out or filled in while reading.
#[derive(Debug, Clone, Copy, PartialEq, Eq, Structural)]
pub enum SkipKind {
    /// A child of a node that is no object, or a leaf that lacks what
    /// identifies it. The child was left out.
    MalformedChild,
    /// A component that lacks its identifier, name, type or payload. The
    /// component was left out.
    MalformedComponent,
    /// A node without a header. An empty header stands in.
    DefaultedHeader,
    /// A header without a title. An empty title stands in.
    DefaultedTitle,
    /// A header whose part reference is no part label. The node has no label.
    MalformedPartLabel,
}

/// One thing that was left out or filled in, with the position among its
/// siblings of the child or component concerned (0 for a header).
#[derive(Debug, Clone, Copy, PartialEq, Eq, Structural)]
pub struct SkipRecord {
    pub kind: SkipKind,
    pub index: usize,
}

/// The text, or the empty text where there is none.
pub open spec fn text_or_empty(s: Option<Seq<char>>) -> Seq<char> {
    match s {
        Some(t) => t,
        None => Seq::empty(),
    }
}

/// The symbols of an optional label.
pub open spec fn label_view(p: Option<PartLabel>) -> Option<Seq<PartSymbol>> {
    match p {
        Some(l) => Some(l@),
        None => None,
    }
}

/// What the parameter record `v` holds: its name and type, empty where they
/// are missing, and its value as it is.
pub open spec fn param_of(v: JsonModel) -> ParamModel {
    ParamModel {
        name: text_or_empty(text_field(v, "name"@)),
        kind: text_or_empty(text_field(v, "type"@)),
        value: field(v, "value"@),
    }
}

/// The parameters of the rule record `v`: one for each entry of its member
/// `params`, none where that is missing.
pub open spec fn params_of(v: JsonModel) -> Seq<ParamModel> {
    match items_field(v, "params"@) {
        Some(items) => Seq::new(items.len(), |i: int| param_of(items[i])),
        None => Seq::empty(),
    }
}

/// The rule that the rule record `v` describes. A missing code or text reads
/// as empty.
pub open spec fn rule_of(v: JsonModel) -> RuleModel {
    classify_model(
        text_or_empty(text_field(v, "code"@)),
        text_or_empty(text_field(v, "text"@)),
        params_of(v),
    )
}

/// The label that the header record `v` gives: its member `partReference`
/// read as a part label.
pub open spec fn part_of(v: JsonModel) -> Option<Seq<PartSymbol>> {
    match text_field(v, "partReference"@) {
        Some(s) => spec_parse_part_label(s),
        None => None,
    }
}

/// Whether `logic` is what the wording `s` says: `AND` and `OR`, in any
/// case, are the two known ways; any other wording is kept as unknown; no
/// wording gives no logic.
pub open spec fn is_logic_of(logic: Option<RuleLogic>, s: Option<Seq<char>>) -> bool {
    match s {
        None => logic is None,
        Some(t) => if same_ignoring_case(t, "AND"@) {
            logic == Some(RuleLogic::And)
        } else if same_ignoring_case(t, "OR"@) {
            logic == Some(RuleLogic::Or)
        } else {
            logic matches Some(RuleLogic::Unknown(kept)) && kept@ == t
        },
    }
}

/// Whether `rule` is what the record `v` describes, kept as it came.
pub open spec fn is_selection_rule_of(rule: Option<SelectionRule>, v: Option<JsonModel>) -> bool {
    match v {
        Some(JsonModel::Obj(obj)) => rule matches Some(r) && r.code@ == text_or_empty(
            text_field(JsonModel::Obj(obj), "code"@),
        ) && r.text@ == text_or_empty(text_field(JsonModel::Obj(obj), "text"@)) && param_models(
            r.params@,
        ) == params_of(JsonModel::Obj(obj)),
        _ => rule is None,
    }
}

/// The rule records of the header record `v`.
pub open spec fn rule_items(v: JsonModel) -> Seq<JsonModel> {
    match items_field(v, "auxiliaryRules"@) {
        Some(items) => items,
        None => Seq::empty(),
    }
}

/// Whether `h` is the header that the record `v` describes.
pub open spec fn is_header_of(h: ComponentPayloadHeader, v: JsonModel) -> bool {
    &&& opt_text(h.part_uid) == text_field(v, "partUID"@)
    &&& label_view(h.part) == part_of(v)
    &&& is_logic_of(h.rule_logic, text_field(v, "ruleLogic"@))
    &&& h.units_min == int_field(v, "unitsMin"@)
    &&& h.units_max == int_field(v, "unitsMax"@)
    &&& h.auxiliary_rules@.len() == rule_items(v).len()
    &&& forall|k: int|
        0 <= k < h.auxiliary_rules@.len() ==> (#[trigger] h.auxiliary_rules@[k]).rule@ == rule_of(
            rule_items(v)[k],
        ) && label_view(h.auxiliary_rules@[k].part) == part_of(v)
    &&& is_selection_rule_of(h.selection_rule, field(v, "selectionRule"@))
    &&& h.title@ == text_or_empty(text_field(v, "title"@))
    &&& opt_text(h.summary_description) == text_field(v, "summaryDescription"@)
    &&& opt_text(h.part_type) == text_field(v, "partType"@)
    &&& opt_text(h.notes) == text_field(v, "notes"@)
}

/// What reading the header record `v` puts on record.
pub open spec fn header_skips(v: JsonModel) -> Seq<SkipRecord> {
    let label = if text_field(v, "partReference"@) is Some && part_of(v) is None {
        seq![SkipRecord { kind: SkipKind::MalformedPartLabel, index: 0 }]
    } else {
        Seq::empty()
    };
    let title = if text_field(v, "title"@) is None {
        seq![SkipRecord { kind: SkipKind::DefaultedTitle, index: 0 }]
    } else {
        Seq::empty()
    };
    label + title
}

/// Whether `v` can be read as a catalog reference: it names its
/// organisation, type, name and state, and has a version.
pub open spec fn reference_ok(v: JsonModel) -> bool {
    &&& text_field(v, "orgName"@) is Some
    &&& text_field(v, "orgCode"@) is Some
    &&& text_field(v, "type"@) is Some
    &&& text_field(v, "name"@) is Some
    &&& text_field(v, "state"@) is Some
    &&& field(v, "version"@) is Some
}

/// Whether `r` is the catalog reference that the record `v` describes.
pub open spec fn is_reference_of(r: CurriculumReference, v: JsonModel) -> bool {
    &&& opt_text(r.code) == text_field(v, "code"@)
    &&& Some(r.name@) == text_field(v, "name"@)
    &&& Some(r.kind@) == text_field(v, "type"@)
    &&& opt_text(r.subtype) == text_field(v, "subtype"@)
    &&& Some(r.org_code@) == text_field(v, "orgCode"@)
    &&& Some(r.org_name@) == text_field(v, "orgName"@)
    &&& Some(r.state@) == text_field(v, "state"@)
    &&& Some(r.version@) == field(v, "version"@)
    &&& opt_text(r.from_year) == text_field(v, "fromYear"@)
    &&& opt_text(r.from_term) == text_field(v, "fromTerm"@)
    &&& r.latest_version == bool_field(v, "latestVersion"@)
    &&& r.units_minimum == int_field(v, "unitsMinimum"@)
    &&& r.units_maximum == int_field(v, "unitsMaximum"@)
}

/// Whether `v` can be read as a wildcard: it has a code pattern, a type, and
/// says whether child organisations are included.
pub open spec fn wildcard_ok(v: JsonModel) -> bool {
    &&& text_field(v, "code"@) is Some
    &&& text_field(v, "type"@) is Some
    &&& bool_field(v, "includeChildOrgs"@) is Some
}

/// Whether `w` is the wildcard that the record `v` describes.
pub open spec fn is_wildcard_of(w: WildCardItem, v: JsonModel) -> bool {
    &&& Some(w.code@) == text_field(v, "code"@)
    &&& Some(w.kind@) == text_field(v, "type"@)
    &&& Some(w.include_child_orgs) == bool_field(v, "includeChildOrgs"@)
    &&& opt_text(w.org_name) == text_field(v, "orgName"@)
    &&& opt_text(w.org_code) == text_field(v, "orgCode"@)
}

/// Whether `v` can be read as a member of an equivalence group: it has an
/// order number and a catalog reference.
pub open spec fn member_ok(v: JsonModel) -> bool {
    &&& int_field(v, "orderNumber"@) is Some
    &&& field(v, "curriculumReference"@) is Some
    &&& reference_ok(field(v, "curriculumReference"@)->Some_0)
}

/// Whether `g` is the group member that the record `v` describes.
pub open spec fn is_member_of(g: EquivalenceGroup, v: JsonModel) -> bool {
    &&& Some(g.order_number) == int_field(v, "orderNumber"@)
    &&& opt_text(g.notes) == text_field(v, "notes"@)
    &&& is_reference_of(g.curriculum_reference, field(v, "curriculumReference"@)->Some_0)
}

/// Reads a parameter record.
pub fn read_param(v: &JsonValue) -> (r: Param)
    ensures
        r@ == param_of(v@),
{
    let name = match v.get_str("name") {
        Some(s) => s,
        None => String::new(),
    };
    let kind = match v.get_str("type") {
        Some(s) => s,
        None => String::new(),
    };
    let value = match v.get("value") {
        Some(x) => Some(x.duplicate()),
        None => None,
    };
    Param { name, kind, value }
}

/// Reads the parameters of a rule record.
pub fn read_params(v: &JsonValue) -> (r: Vec<Param>)
    ensures
        param_models(r@) == params_of(v@),
{
    let mut out: Vec<Param> = Vec::new();
    match v.get_items("params") {
        Some(items) => {
            let ghost ms = models(items@, items@.len() as int);
            proof {
                lemma_models(items@, items@.len() as int);
            }
            let mut i: usize = 0;
            while i < items.len()
                invariant
                    i <= items.len(),
                    ms == models(items@, items@.len() as int),
                    ms.len() == items@.len(),
                    forall|j: int| 0 <= j < items@.len() ==> #[trigger] ms[j] == model(items@[j]),
                    out@.len() == i,
                    forall|j: int| 0 <= j < i ==> (#[trigger] out@[j])@ == param_of(ms[j]),
                decreases items.len() - i,
            {
                assert(ms[i as int] == items@[i as int]@);
                out.push(read_param(&items[i]));
                i = i + 1;
            }
            assert(param_models(out@) =~= Seq::new(ms.len(), |i: int| param_of(ms[i])));
        },
        None => {
            assert(param_models(out@) =~= Seq::<ParamModel>::empty());
        },
    }
    out
}

/// A copy of an optional label.
pub fn duplicate_label(part: &Option<PartLabel>) -> (r: Option<PartLabel>)
    ensures
        label_view(r) == label_view(*part),
{
    match part {
        Some(l) => Some(l.duplicate()),
        None => None,
    }
}

/// Reads a rule record and attaches the rule to the node labelled `part`.
pub fn read_rule(v: &JsonValue, part: &Option<PartLabel>) -> (r: AuxiliaryRule)
    ensures
        r.rule@ == rule_of(v@),
        label_view(r.part) == label_view(*part),
{
    let code = match v.get_str("code") {
        Some(s) => s,
        None => String::new(),
    };
    let text = match v.get_str("text") {
        Some(s) => s,
        None => String::new(),
    };
    let params = read_params(v);
    AuxiliaryRule { part: duplicate_label(part), rule: classify_rule(code.as_str(), text, params) }
}

/// Reads the wording of a node's logic.
pub fn read_logic(wording: Option<String>) -> (r: Option<RuleLogic>)
    ensures
        is_logic_of(r, opt_text(wording)),
{
    match wording {
        None => None,
        Some(s) => {
            if same_text_ignoring_case(s.as_str(), "AND") {
                Some(RuleLogic::And)
            } else if same_text_ignoring_case(s.as_str(), "OR") {
                Some(RuleLogic::Or)
            } else {
                Some(RuleLogic::Unknown(s))
            }
        },
    }
}

/// Reads a selection rule, where the header has one.
pub fn read_selection_rule(v: Option<&JsonValue>) -> (r: Option<SelectionRule>)
    ensures
        is_selection_rule_of(
            r,
            match v {
                Some(x) => Some(x@),
                None => None,
            },
        ),
{
    match v {
        Some(x) => match x {
            JsonValue::Obj(_) => {
                let code = match x.get_str("code") {
                    Some(s) => s,
                    None => String::new(),
                };
                let text = match x.get_str("text") {
                    Some(s) => s,
                    None => String::new(),
                };
                Some(SelectionRule { code, text, params: read_params(x) })
            },
            _ => None,
        },
        None => None,
    }
}

/// Reads a header record. What it leaves out or fills in is added to `log`.
pub fn read_header(v: &JsonValue, log: &mut Vec<SkipRecord>) -> (r: ComponentPayloadHeader)
    ensures
        is_header_of(r, v@),
        final(log)@ == old(log)@ + header_skips(v@),
{
    let part = match v.get_str("partReference") {
        Some(s) => match parse_part_label(s.as_str()) {
            Ok(label) => Some(label),
            Err(_) => {
                log.push(SkipRecord { kind: SkipKind::MalformedPartLabel, index: 0 });
                None
            },
        },
        None => None,
    };
    let ghost mid = log@;
    let title = match v.get_str("title") {
        Some(s) => s,
        None => {
            log.push(SkipRecord { kind: SkipKind::DefaultedTitle, index: 0 });
            String::new()
        },
    };
    proof {
        assert(log@ =~= old(log)@ + header_skips(v@));
    }
    let mut rules: Vec<AuxiliaryRule> = Vec::new();
    match v.get_items("auxiliaryRules") {
        Some(items) => {
            let ghost ms = models(items@, items@.len() as int);
            proof {
                lemma_models(items@, items@.len() as int);
            }
            let mut i: usize = 0;
            while i < items.len()
                invariant
                    i <= items.len(),
                    ms == models(items@, items@.len() as int),
                    ms.len() == items@.len(),
                    forall|j: int| 0 <= j < items@.len() ==> #[trigger] ms[j] == model(items@[j]),
                    rules@.len() == i,
                    forall|j: int|
                        0 <= j < i ==> (#[trigger] rules@[j]).rule@ == rule_of(ms[j]) && label_view(
                            rules@[j].part,
                        ) == label_view(part),
                decreases items.len() - i,
            {
                assert(ms[i as int] == items@[i as int]@);
                rules.push(read_rule(&items[i], &part));
                i = i + 1;
            }
        },
        None => {},
    }
    ComponentPayloadHeader {
        part_uid: v.get_str("partUID"),
        part,
        rule_logic: read_logic(v.get_str("ruleLogic")),
        units_min: v.get_int("unitsMin"),
        units_max: v.get_int("unitsMax"),
        auxiliary_rules: rules,
        selection_rule: read_selection_rule(v.get("selectionRule")),
        title,
        summary_description: v.get_str("summaryDescription"),
        part_type: v.get_str("partType"),
        notes: v.get_str("notes"),
    }
}

/// Reads a catalog reference; nothing where the record lacks a required
/// member.
pub fn read_reference(v: &JsonValue) -> (r: Option<CurriculumReference>)
    ensures
        match r {
            Some(reference) => reference_ok(v@) && is_reference_of(reference, v@),
            None => !reference_ok(v@),
        },
{
    let org_name = match v.get_str("orgName") {
        Some(s) => s,
        None => {
            return None;
        },
    };
    let org_code = match v.get_str("orgCode") {
        Some(s) => s,
        None => {
            return None;
        },
    };
    let kind = match v.get_str("type") {
        Some(s) => s,
        None => {
            return None;
        },
    };
    let name = match v.get_str("name") {
        Some(s) => s,
        None => {
            return None;
        },
    };
    let state = match v.get_str("state") {
        Some(s) => s,
        None => {
            return None;
        },
    };
    let version = match v.get("version") {
        Some(x) => x.duplicate(),
        None => {
            return None;
        },
    };
    Some(
        CurriculumReference {
            code: v.get_str("code"),
            name,
            kind,
            subtype: v.get_str("subtype"),
            org_code,
            org_name,
            state,
            version,
            from_year: v.get_str("fromYear"),
            from_term: v.get_str("fromTerm"),
            latest_version: v.get_bool("latestVersion"),
            units_minimum: v.get_int("unitsMinimum"),
            units_maximum: v.get_int("unitsMaximum"),
        },
    )
}

/// Reads a wildcard; nothing where the record lacks a required member.
pub fn read_wildcard(v: &JsonValue) -> (r: Option<WildCardItem>)
    ensures
        match r {
            Some(w) => wildcard_ok(v@) && is_wildcard_of(w, v@),
            None => !wildcard_ok(v@),
        },
{
    let code = match v.get_str("code") {
        Some(s) => s,
        None => {
            return None;
        },
    };
    let kind = match v.get_str("type") {
        Some(s) => s,
        None => {
            return None;
        },
    };
    let include_child_orgs = match v.get_bool("includeChildOrgs") {
        Some(b) => b,
        None => {
            return None;
        },
    };
    Some(
        WildCardItem {
            code,
            org_name: v.get_str("orgName"),
            org_code: v.get_str("orgCode"),
            include_child_orgs,
            kind,
        },
    )
}

/// Reads a member of an equivalence group; nothing where the record lacks a
/// required member.
pub fn read_member(v: &JsonValue) -> (r: Option<EquivalenceGroup>)
    ensures
        match r {
            Some(g) => member_ok(v@) && is_member_of(g, v@),
            None => !member_ok(v@),
        },
{
    let order_number = match v.get_int("orderNumber") {
        Some(n) => n,
        None => {
            return None;
        },
    };
    let curriculum_reference = match v.get("curriculumReference") {
        Some(x) => match read_reference(x) {
            Some(reference) => reference,
            None => {
                return None;
            },
        },
        None => {
            return None;
        },
    };
    Some(EquivalenceGroup { order_number, notes: v.get_str("notes"), curriculum_reference })
}

/// The three kinds of leaf.
#[derive(Debug, Clone, Copy, PartialEq, Eq, Structural)]
pub enum RowType {
    CurriculumReference,
    EquivalenceGroup,
    WildCardItem,
}

/// The kind of leaf that a row type tag names, the case of letters left
/// aside.
pub open spec fn row_type_of(tag: Seq<char>) -> Option<RowType> {
    if same_ignoring_case(tag, "curriculumReference"@) {
        Some(RowType::CurriculumReference)
    } else if same_ignoring_case(tag, "equivalenceGroup"@) {
        Some(RowType::EquivalenceGroup)
    } else if same_ignoring_case(tag, "wildCardItem"@) {
        Some(RowType::WildCardItem)
    } else {
        None
    }
}

/// The kind of leaf that the record `v` says it is.
pub open spec fn row_type(v: JsonModel) -> Option<RowType> {
    match text_field(v, "rowType"@) {
        Some(tag) => row_type_of(tag),
        None => None,
    }
}

/// The member records of the group leaf `v`.
pub open spec fn member_items(v: JsonModel) -> Seq<JsonModel> {
    match items_field(v, "equivalenceGroup"@) {
        Some(items) => items,
        None => Seq::empty(),
    }
}

/// Whether the record `v` can be read as a leaf: its row type is one of the
/// three kinds, and what that kind needs is there and can be read.
pub open spec fn leaf_ok(v: JsonModel) -> bool {
    match row_type(v) {
        Some(RowType::CurriculumReference) => field(v, "curriculumReference"@) is Some
            && reference_ok(field(v, "curriculumReference"@)->Some_0),
        Some(RowType::EquivalenceGroup) => items_field(v, "equivalenceGroup"@) is Some && forall|
            m: int,
        |
            0 <= m < member_items(v).len() ==> member_ok(#[trigger] member_items(v)[m]),
        Some(RowType::WildCardItem) => field(v, "wildCardItem"@) is Some && wildcard_ok(
            field(v, "wildCardItem"@)->Some_0,
        ),
        None => false,
    }
}

/// Whether `leaf` is the leaf that the record `v` describes.
pub open spec fn is_leaf_of(leaf: ComponentPayloadLeaf, v: JsonModel) -> bool {
    match leaf {
        ComponentPayloadLeaf::CurriculumReference { order_number, notes, curriculum_reference } => {
            &&& row_type(v) == Some(RowType::CurriculumReference)
            &&& order_number == int_field(v, "orderNumber"@)
            &&& opt_text(notes) == text_field(v, "notes"@)
            &&& is_reference_of(curriculum_reference, field(v, "curriculumReference"@)->Some_0)
        },
        ComponentPayloadLeaf::EquivalenceGroup { order_number, notes, equivalence_group } => {
            &&& row_type(v) == Some(RowType::EquivalenceGroup)
            &&& order_number == int_field(v, "orderNumber"@)
            &&& opt_text(notes) == text_field(v, "notes"@)
            &&& equivalence_group@.len() == member_items(v).len()
            &&& forall|m: int|
                0 <= m < member_items(v).len() ==> is_member_of(
                    equivalence_group@[m],
                    #[trigger] member_items(v)[m],
                )
        },
        ComponentPayloadLeaf::WildCardItem { order_number, notes, wild_card_item } => {
            &&& row_type(v) == Some(RowType::WildCardItem)
            &&& order_number == int_field(v, "orderNumber"@)
            &&& opt_text(notes) == text_field(v, "notes"@)
            &&& is_wildcard_of(wild_card_item, field(v, "wildCardItem"@)->Some_0)
        },
    }
}

/// Whether the record `v` can be read as a part of the tree: it is an
/// object, and where it says that it is a leaf it can be read as one. A node
/// can always be read.
pub open spec fn payload_ok(v: JsonModel) -> bool {
    v is Obj && (field(v, "rowType"@) is Some ==> leaf_ok(v))
}

/// How many of the first `k` records can be read.
pub open spec fn kept(items: Seq<JsonModel>, k: int) -> nat
    decreases k,
{
    if k <= 0 {
        0
    } else {
        kept(items, k - 1) + if payload_ok(items[k - 1]) {
            1nat
        } else {
            0nat
        }
    }
}

/// The child records of the node record `v`.
pub open spec fn body_items(v: JsonModel) -> Seq<JsonModel> {
    match items_field(v, "body"@) {
        Some(items) => items,
        None => Seq::empty(),
    }
}

/// Whether `h` says nothing at all.
pub open spec fn is_empty_header(h: ComponentPayloadHeader) -> bool {
    &&& h.part_uid is None
    &&& h.part is None
    &&& h.rule_logic is None
    &&& h.units_min is None
    &&& h.units_max is None
    &&& h.auxiliary_rules@.len() == 0
    &&& h.selection_rule is None
    &&& h.title@.len() == 0
    &&& h.summary_description is None
    &&& h.part_type is None
    &&& h.notes is None
}

/// Whether the node record `v` has a header that is an object.
pub open spec fn has_header(v: JsonModel) -> bool {
    field(v, "header"@) is Some && field(v, "header"@)->Some_0 is Obj
}

/// Whether `h` is the header of the node record `v`: what its member
/// `header` describes, or an empty header where there is none.
pub open spec fn is_node_header_of(h: ComponentPayloadHeader, v: JsonModel) -> bool {
    if has_header(v) {
        is_header_of(h, field(v, "header"@)->Some_0)
    } else {
        is_empty_header(h)
    }
}

/// What reading the header of the node record `v` puts on record.
pub open spec fn node_header_skips(v: JsonModel) -> Seq<SkipRecord> {
    if has_header(v) {
        header_skips(field(v, "header"@)->Some_0)
    } else {
        seq![SkipRecord { kind: SkipKind::DefaultedHeader, index: 0 }]
    }
}

/// Whether `t` is the tree that the record `v` describes: a leaf where the
/// record has a row type, else a node with the record's header and, in
/// order, the trees of those child records that can be read.
pub open spec fn is_payload_of(t: ComponentPayload, v: JsonModel) -> bool
    decreases t,
{
    match t {
        ComponentPayload::Leaf(leaf) => field(v, "rowType"@) is Some && is_leaf_of(leaf, v),
        ComponentPayload::Node { header, body } => {
            &&& field(v, "rowType"@) is None
            &&& is_node_header_of(header, v)
            &&& is_body_of(body@, body_items(v))
        },
    }
}

/// Whether `body` holds, in order, the trees of those of `items` that can be
/// read.
pub open spec fn is_body_of(body: Seq<ComponentPayload>, items: Seq<JsonModel>) -> bool
    decreases body,
{
    &&& body.len() == kept(items, items.len() as int)
    &&& forall|k: int|
        0 <= k < items.len() && payload_ok(#[trigger] items[k]) && kept(items, k) < body.len()
            ==> is_payload_of(body[kept(items, k) as int], items[k])
}

/// What reading the record `v` into the tree `t` puts on record, in the order
/// of reading: first what the header gave, then child by child.
pub open spec fn payload_skips(t: ComponentPayload, v: JsonModel) -> Seq<SkipRecord>
    decreases t,
{
    match t {
        ComponentPayload::Leaf(_) => Seq::empty(),
        ComponentPayload::Node { header, body } => node_header_skips(v) + body_skips(
            body@,
            body_items(v),
            body_items(v).len() as int,
        ),
    }
}

/// What reading the first `k` child records puts on record: for a child that
/// cannot be read, one record with its position; for any other, what reading
/// it gave.
pub open spec fn body_skips(body: Seq<ComponentPayload>, items: Seq<JsonModel>, k: int) -> Seq<
    SkipRecord,
>
    decreases body, k,
{
    if k <= 0 || k > items.len() {
        Seq::empty()
    } else {
        body_skips(body, items, k - 1) + if !payload_ok(items[k - 1]) {
            seq![SkipRecord { kind: SkipKind::MalformedChild, index: (k - 1) as usize }]
        } else if kept(items, k - 1) < body.len() {
            payload_skips(body[kept(items, k - 1) as int], items[k - 1])
        } else {
            Seq::empty()
        }
    }
}

/// No more records are kept than were looked at.
pub proof fn lemma_kept_bound(items: Seq<JsonModel>, k: int)
    requires
        0 <= k,
    ensures
        kept(items, k) <= k,
    decreases k,
{
    if k > 0 {
        lemma_kept_bound(items, k - 1);
    }
}

/// Looking at more records keeps no fewer.
pub proof fn lemma_kept_monotone(items: Seq<JsonModel>, j: int, k: int)
    requires
        0 <= j <= k,
    ensures
        kept(items, j) <= kept(items, k),
    decreases k - j,
{
    if j < k {
        lemma_kept_monotone(items, j, k - 1);
    }
}

/// Every child record that can be read has its place in the body: the
/// position that `is_body_of` and `body_skips` look at is one of the body.
pub proof fn lemma_kept_child_has_place(
    body: Seq<ComponentPayload>,
    items: Seq<JsonModel>,
    k: int,
)
    requires
        is_body_of(body, items),
        0 <= k < items.len(),
        payload_ok(items[k]),
    ensures
        kept(items, k) < body.len(),
        is_payload_of(body[kept(items, k) as int], items[k]),
{
    lemma_kept_monotone(items, k + 1, items.len() as int);
}

/// What the first `k` child records put on record depends only on the trees
/// that were read from them.
pub proof fn lemma_body_skips_prefix(
    a: Seq<ComponentPayload>,
    b: Seq<ComponentPayload>,
    items: Seq<JsonModel>,
    k: int,
)
    requires
        0 <= k <= items.len(),
        kept(items, k) <= a.len(),
        kept(items, k) <= b.len(),
        forall|j: int| 0 <= j < kept(items, k) ==> a[j] == b[j],
    ensures
        body_skips(a, items, k) == body_skips(b, items, k),
    decreases k,
{
    if k > 0 {
        lemma_body_skips_prefix(a, b, items, k - 1);
    }
}

/// Reads the row type of a leaf record.
pub fn read_row_type(v: &JsonValue) -> (r: Option<RowType>)
    ensures
        r == row_type(v@),
{
    match v.get_str("rowType") {
        Some(tag) => {
            if same_text_ignoring_case(tag.as_str(), "curriculumReference") {
                Some(RowType::CurriculumReference)
            } else if same_text_ignoring_case(tag.as_str(), "equivalenceGroup") {
                Some(RowType::EquivalenceGroup)
            } else if same_text_ignoring_case(tag.as_str(), "wildCardItem") {
                Some(RowType::WildCardItem)
            } else {
                None
            }
        },
        None => None,
    }
}

/// Reads the members of a group leaf; nothing where one of them cannot be
/// read.
pub fn read_members(items: &Vec<JsonValue>) -> (r: Option<Vec<EquivalenceGroup>>)
    ensures
        match r {
            Some(group) => {
                &&& group@.len() == items@.len()
                &&& forall|m: int|
                    0 <= m < items@.len() ==> member_ok(
                        #[trigger] models(items@, items@.len() as int)[m],
                    ) && is_member_of(group@[m], models(items@, items@.len() as int)[m])
            },
            None => exists|m: int|
                0 <= m < items@.len() && !member_ok(
                    #[trigger] models(items@, items@.len() as int)[m],
                ),
        },
{
    let ghost ms = models(items@, items@.len() as int);
    proof {
        lemma_models(items@, items@.len() as int);
    }
    let mut out: Vec<EquivalenceGroup> = Vec::new();
    let mut i: usize = 0;
    while i < items.len()
        invariant
            i <= items.len(),
            ms == models(items@, items@.len() as int),
            ms.len() == items@.len(),
            forall|j: int| 0 <= j < items@.len() ==> #[trigger] ms[j] == model(items@[j]),
            out@.len() == i,
            forall|m: int|
                0 <= m < i ==> member_ok(#[trigger] ms[m]) && is_member_of(out@[m], ms[m]),
        decreases items.len() - i,
    {
        assert(ms[i as int] == items@[i as int]@);
        match read_member(&items[i]) {
            Some(g) => {
                out.push(g);
            },
            None => {
                assert(!member_ok(ms[i as int]));
                return None;
            },
        }
        i = i + 1;
    }
    Some(out)
}

/// Reads a leaf record; nothing where it cannot be read as a leaf.
pub fn read_leaf(v: &JsonValue) -> (r: Option<ComponentPayloadLeaf>)
    ensures
        match r {
            Some(leaf) => leaf_ok(v@) && is_leaf_of(leaf, v@),
            None => !leaf_ok(v@),
        },
{
    match read_row_type(v) {
        Some(RowType::CurriculumReference) => match v.get("curriculumReference") {
            Some(x) => match read_reference(x) {
                Some(curriculum_reference) => Some(
                    ComponentPayloadLeaf::CurriculumReference {
                        order_number: v.get_int("orderNumber"),
                        notes: v.get_str("notes"),
                        curriculum_reference,
                    },
                ),
                None => None,
            },
            None => None,
        },
        Some(RowType::EquivalenceGroup) => match v.get_items("equivalenceGroup") {
            Some(items) => {
                let ghost ms = models(items@, items@.len() as int);
                proof {
                    lemma_models(items@, items@.len() as int);
                    assert(member_items(v@) == ms);
                }
                match read_members(items) {
                    Some(equivalence_group) => {
                        proof {
                            assert forall|m: int| 0 <= m < ms.len() implies member_ok(
                                #[trigger] ms[m],
                            ) && is_member_of(equivalence_group@[m], ms[m]) by {}
                        }
                        Some(
                            ComponentPayloadLeaf::EquivalenceGroup {
                                order_number: v.get_int("orderNumber"),
                                notes: v.get_str("notes"),
                                equivalence_group,
                            },
                        )
                    },
                    None => {
                        proof {
                            let m = choose|m: int| 0 <= m < items@.len() && !member_ok(#[trigger] ms[m]);
                            assert(!member_ok(member_items(v@)[m]));
                        }
                        None
                    },
                }
            },
            None => None,
        },
        Some(RowType::WildCardItem) => match v.get("wildCardItem") {
            Some(x) => match read_wildcard(x) {
                Some(wild_card_item) => Some(
                    ComponentPayloadLeaf::WildCardItem {
                        order_number: v.get_int("orderNumber"),
                        notes: v.get_str("notes"),
                        wild_card_item,
                    },
                ),
                None => None,
            },
            None => None,
        },
        None => None,
    }
}

/// Reads the header of a node record, or makes an empty one where the record
/// has none. What is left out or filled in is added to `log`.
pub fn read_node_header(v: &JsonValue, log: &mut Vec<SkipRecord>) -> (r: ComponentPayloadHeader)
    ensures
        is_node_header_of(r, v@),
        final(log)@ == old(log)@ + node_header_skips(v@),
{
    match v.get("header") {
        Some(h) => match h {
            JsonValue::Obj(_) => {
                return read_header(h, log);
            },
            _ => {},
        },
        None => {},
    }
    log.push(SkipRecord { kind: SkipKind::DefaultedHeader, index: 0 });
    assert(log@ =~= old(log)@ + node_header_skips(v@));
    ComponentPayloadHeader::empty()
}

/// Reads a record into a tree; nothing where the record cannot be read.
/// Children that cannot be read are left out, each with a record in `log`;
/// a record that cannot be read itself adds nothing to `log`.
pub fn read_payload(v: &JsonValue, log: &mut Vec<SkipRecord>) -> (r: Option<ComponentPayload>)
    ensures
        match r {
            Some(t) => payload_ok(v@) && is_payload_of(t, v@) && final(log)@ == old(log)@
                + payload_skips(t, v@),
            None => !payload_ok(v@) && final(log)@ == old(log)@,
        },
    decreases *v,
{
    match v {
        JsonValue::Obj(_) => {},
        _ => {
            return None;
        },
    }
    if v.get("rowType").is_some() {
        return match read_leaf(v) {
            Some(leaf) => {
                assert(log@ =~= old(log)@ + Seq::<SkipRecord>::empty());
                Some(ComponentPayload::Leaf(leaf))
            },
            None => None,
        };
    }
    let header = read_node_header(v, log);
    let ghost after_header = log@;
    let mut body: Vec<ComponentPayload> = Vec::new();
    match v.get_items("body") {
        Some(items) => {
            let ghost ms = models(items@, items@.len() as int);
            proof {
                lemma_models(items@, items@.len() as int);
                assert(ms == body_items(v@));
            }
            let mut i: usize = 0;
            while i < items.len()
                invariant
                    decreases_to!(*v => *items),
                    i <= items.len(),
                    ms == models(items@, items@.len() as int),
                    ms.len() == items@.len(),
                    forall|j: int| 0 <= j < items@.len() ==> #[trigger] ms[j] == model(items@[j]),
                    body@.len() == kept(ms, i as int),
                    forall|k: int|
                        0 <= k < i && payload_ok(#[trigger] ms[k]) ==> kept(ms, k) < body@.len()
                            && is_payload_of(body@[kept(ms, k) as int], ms[k]),
                    log@ == after_header + body_skips(body@, ms, i as int),
                decreases items.len() - i,
            {
                let ghost before = body@;
                let ghost log_before = log@;
                assert(ms[i as int] == items@[i as int]@);
                proof {
                    assert(decreases_to!(*items => items[i as int]));
                    lemma_kept_bound(ms, i as int);
                }
                match read_payload(&items[i], log) {
                    Some(child) => {
                        body.push(child);
                        proof {
                            lemma_body_skips_prefix(before, body@, ms, i as int);
                            assert forall|k: int|
                                0 <= k < i + 1 && payload_ok(#[trigger] ms[k]) implies kept(ms, k)
                                < body@.len() && is_payload_of(
                                body@[kept(ms, k) as int],
                                ms[k],
                            ) by {
                                if k < i {
                                    assert(body@[kept(ms, k) as int] == before[kept(ms, k) as int]);
                                }
                            }
                            assert(log@ =~= after_header + body_skips(body@, ms, i + 1));
                        }
                    },
                    None => {
                        log.push(SkipRecord { kind: SkipKind::MalformedChild, index: i });
                        proof {
                            assert(log@ =~= after_header + body_skips(body@, ms, i + 1));
                        }
                    },
                }
                i = i + 1;
            }
            proof {
                assert(is_body_of(body@, ms)) by {
                    assert forall|k: int|
                        0 <= k < ms.len() && payload_ok(#[trigger] ms[k]) && kept(ms, k)
                            < body@.len() implies is_payload_of(
                        body@[kept(ms, k) as int],
                        ms[k],
                    ) by {}
                }
            }
        },
        None => {
            proof {
                assert(body_items(v@) =~= Seq::<JsonModel>::empty());
                assert(log@ =~= after_header + body_skips(body@, body_items(v@), 0));
            }
        },
    }
    proof {
        assert(log@ =~= old(log)@ + (node_header_skips(v@) + body_skips(
            body@,
            body_items(v@),
            body_items(v@).len() as int,
        )));
    }
    Some(ComponentPayload::Node { header, body })
}

} // verus!
