use degree_verifier::credit::{compute_credit, count_credited_units, evaluate_bounds};
use degree_verifier::eval::{
    evaluate, evaluate_in, evaluate_leaf, evaluate_program, find_first_fit, VerdictTree,
};
use degree_verifier::ident::{parse_course_code, CourseCode, ProgramCode};
use degree_verifier::json::JsonValue;
use degree_verifier::json::JsonMember;
use degree_verifier::matching::{
    first_present_member, fits_wildcard, is_attributable, matches_pattern,
};
use degree_verifier::report::{reason_json, tree_json, verdict_json};
use degree_verifier::part::parse_part_label;
use degree_verifier::rule::{AuxiliaryRule, AuxiliaryRuleKind, LevelSpec};
use degree_verifier::selection::{
    CourseFacts, DisciplineGrouping, SelectedCourse, StudentSelection,
};
use degree_verifier::tree::{
    Component, ComponentPayload, ComponentPayloadHeader, ComponentPayloadLeaf,
    CurriculumReference, EquivalenceGroup, ProgramRequirements, RuleLogic, WildCardItem,
};
use degree_verifier::verdict::{Reason, Status, Verdict};

fn code(text: &str) -> CourseCode {
    parse_course_code(text).unwrap()
}

fn course(text: &str, level: u16, units: u16) -> SelectedCourse {
    SelectedCourse {
        code: code(text),
        facts: Some(CourseFacts { level, units }),
        discipline: None,
        org_code: None,
    }
}

fn selection(courses: Vec<SelectedCourse>) -> StudentSelection {
    StudentSelection { courses, programs: None, grouping: DisciplineGrouping::CodePrefix }
}

fn reference(text: &str) -> CurriculumReference {
    CurriculumReference {
        code: Some(text.to_string()),
        name: "A course".to_string(),
        kind: "Course".to_string(),
        subtype: None,
        org_code: "EAIT".to_string(),
        org_name: "Engineering".to_string(),
        state: "Active".to_string(),
        version: JsonValue::Int(1),
        from_year: None,
        from_term: None,
        latest_version: Some(true),
        units_minimum: None,
        units_maximum: None,
    }
}

fn reference_leaf(text: &str) -> ComponentPayload {
    ComponentPayload::Leaf(ComponentPayloadLeaf::CurriculumReference {
        order_number: None,
        notes: None,
        curriculum_reference: reference(text),
    })
}

fn group(members: Vec<&str>) -> ComponentPayloadLeaf {
    let mut equivalence_group = Vec::new();
    let mut order_number: i64 = 0;
    for text in members {
        order_number += 1;
        equivalence_group.push(EquivalenceGroup {
            order_number,
            notes: None,
            curriculum_reference: reference(text),
        });
    }
    ComponentPayloadLeaf::EquivalenceGroup { order_number: None, notes: None, equivalence_group }
}

fn wildcard(pattern: &str) -> WildCardItem {
    WildCardItem {
        code: pattern.to_string(),
        org_name: None,
        org_code: None,
        include_child_orgs: false,
        kind: "Course".to_string(),
    }
}

fn wildcard_leaf(pattern: &str) -> ComponentPayload {
    ComponentPayload::Leaf(ComponentPayloadLeaf::WildCardItem {
        order_number: None,
        notes: None,
        wild_card_item: wildcard(pattern),
    })
}

fn header(logic: Option<RuleLogic>) -> ComponentPayloadHeader {
    let mut h = ComponentPayloadHeader::empty();
    h.rule_logic = logic;
    h
}

fn node(logic: Option<RuleLogic>, body: Vec<ComponentPayload>) -> ComponentPayload {
    ComponentPayload::Node { header: header(logic), body }
}

fn rule(kind: AuxiliaryRuleKind) -> AuxiliaryRule {
    AuxiliaryRule { part: Some(parse_part_label("A").unwrap()), rule: kind }
}

fn leaf_verdict(verdict: Verdict) -> VerdictTree {
    VerdictTree { verdict, rules: vec![], children: vec![] }
}

fn failed(reasons: Vec<Reason>) -> Verdict {
    Verdict::Unsatisfied { reasons }
}

fn undecided(reasons: Vec<Reason>) -> Verdict {
    Verdict::Indeterminate { reasons }
}

#[test]
fn reference_is_satisfied_by_a_selected_course() {
    let tree = reference_leaf("CSSE2310");
    let with = selection(vec![course("MATH1051", 1000, 2), course("CSSE2310", 2000, 2)]);
    assert_eq!(evaluate(&tree, &with), leaf_verdict(Verdict::Satisfied));
    let without = selection(vec![course("MATH1051", 1000, 2)]);
    assert_eq!(
        evaluate(&tree, &without),
        leaf_verdict(failed(vec![Reason::ReferenceNotSelected]))
    );
}

#[test]
fn reference_is_satisfied_by_an_enrolled_program() {
    let tree = reference_leaf("SOFTX2342");
    let mut sel = selection(vec![]);
    assert_eq!(evaluate(&tree, &sel).verdict, failed(vec![Reason::ReferenceNotSelected]));
    sel.programs = Some(vec![ProgramCode { code: "SOFTX2342".to_string() }]);
    assert_eq!(evaluate(&tree, &sel).verdict, Verdict::Satisfied);
}

#[test]
fn reference_without_a_code_is_never_satisfied() {
    let mut r = reference("CSSE2310");
    r.code = None;
    let tree = ComponentPayload::Leaf(ComponentPayloadLeaf::CurriculumReference {
        order_number: Some(1),
        notes: None,
        curriculum_reference: r,
    });
    let sel = selection(vec![course("CSSE2310", 2000, 2)]);
    assert_eq!(evaluate(&tree, &sel).verdict, failed(vec![Reason::ReferenceNotSelected]));
}

#[test]
fn equivalence_group_needs_one_member() {
    let tree = ComponentPayload::Leaf(group(vec!["MATH1051", "MATH1071"]));
    let first = selection(vec![course("MATH1051", 1000, 2)]);
    assert_eq!(evaluate(&tree, &first), leaf_verdict(Verdict::Satisfied));
    let second = selection(vec![course("CSSE2310", 2000, 2), course("MATH1071", 1000, 2)]);
    assert_eq!(evaluate(&tree, &second), leaf_verdict(Verdict::Satisfied));
    let both = selection(vec![course("MATH1071", 1000, 2), course("MATH1051", 1000, 2)]);
    assert_eq!(evaluate(&tree, &both), leaf_verdict(Verdict::Satisfied));
    let neither = selection(vec![course("CSSE2310", 2000, 2)]);
    assert_eq!(
        evaluate(&tree, &neither),
        leaf_verdict(failed(vec![Reason::NoEquivalentSelected]))
    );
    assert_eq!(
        evaluate(&tree, &selection(vec![])),
        leaf_verdict(failed(vec![Reason::NoEquivalentSelected]))
    );
}

#[test]
fn empty_equivalence_group_is_never_satisfied() {
    let tree = ComponentPayload::Leaf(group(vec![]));
    let sel = selection(vec![course("CSSE2310", 2000, 2)]);
    assert_eq!(evaluate(&tree, &sel).verdict, failed(vec![Reason::NoEquivalentSelected]));
}

#[test]
fn pattern_fits_the_start_of_a_code() {
    assert!(matches_pattern("CSSE", "CSSE2310"));
    assert!(matches_pattern("CSSE2***", "CSSE2310"));
    assert!(matches_pattern("****2310", "CSSE2310"));
    assert!(matches_pattern("", "CSSE2310"));
    assert!(matches_pattern("CSSE2310", "CSSE2310"));
    assert!(!matches_pattern("CSSE3***", "CSSE2310"));
    assert!(!matches_pattern("csse", "CSSE2310"));
    assert!(!matches_pattern("CSSE2310*", "CSSE2310"));
    assert!(!matches_pattern("SSE", "CSSE2310"));
}

#[test]
fn wildcard_with_an_organisation_needs_a_course_of_it() {
    let mut w = wildcard("CSSE");
    let mut c = course("CSSE2310", 2000, 2);
    assert!(fits_wildcard(&w, &c));
    w.org_code = Some("EAIT".to_string());
    assert!(!fits_wildcard(&w, &c));
    c.org_code = Some("SCI".to_string());
    assert!(!fits_wildcard(&w, &c));
    c.org_code = Some("EAIT".to_string());
    assert!(fits_wildcard(&w, &c));
    w.code = "MATH".to_string();
    assert!(!fits_wildcard(&w, &c));
}

#[test]
fn wildcard_takes_the_first_free_course_that_fits() {
    let sel = selection(vec![
        course("MATH1051", 1000, 2),
        course("CSSE2310", 2000, 2),
        course("CSSE3010", 3000, 2),
    ]);
    let w = wildcard("CSSE");
    assert_eq!(find_first_fit(&w, &sel, &vec![false, false, false]), Some(1));
    assert_eq!(find_first_fit(&w, &sel, &vec![false, true, false]), Some(2));
    assert_eq!(find_first_fit(&w, &sel, &vec![false, true, true]), None);
    assert_eq!(find_first_fit(&w, &sel, &vec![]), Some(1));
    assert_eq!(find_first_fit(&wildcard("STAT"), &sel, &vec![]), None);
    let leaf = ComponentPayloadLeaf::WildCardItem {
        order_number: None,
        notes: None,
        wild_card_item: wildcard("CSSE"),
    };
    assert_eq!(evaluate_leaf(&leaf, &sel, &vec![false, true, false]), Verdict::Satisfied);
    assert_eq!(
        evaluate_leaf(&leaf, &sel, &vec![true, true, true]),
        failed(vec![Reason::NoWildcardMatch])
    );
}

#[test]
fn wildcard_does_not_take_a_course_that_a_sibling_names() {
    let tree = node(Some(RuleLogic::And), vec![wildcard_leaf("CSSE"), reference_leaf("CSSE2310")]);
    let one = selection(vec![course("CSSE2310", 2000, 2)]);
    let out = evaluate(&tree, &one);
    assert_eq!(out.children[0].verdict, failed(vec![Reason::NoWildcardMatch]));
    assert_eq!(out.children[1].verdict, Verdict::Satisfied);
    assert_eq!(out.verdict, failed(vec![Reason::ChildNotSatisfied { index: 0 }]));
    let two = selection(vec![course("CSSE2310", 2000, 2), course("CSSE3010", 3000, 2)]);
    let out = evaluate(&tree, &two);
    assert_eq!(out.children[0].verdict, Verdict::Satisfied);
    assert_eq!(out.verdict, Verdict::Satisfied);
}

#[test]
fn no_course_fills_two_wildcards_of_a_node() {
    let tree = node(None, vec![wildcard_leaf("CSSE"), wildcard_leaf("CSSE"), wildcard_leaf("MATH")]);
    let sel = selection(vec![course("CSSE2310", 2000, 2), course("MATH1051", 1000, 2)]);
    let out = evaluate(&tree, &sel);
    assert_eq!(out.children[0].verdict, Verdict::Satisfied);
    assert_eq!(out.children[1].verdict, failed(vec![Reason::NoWildcardMatch]));
    assert_eq!(out.children[2].verdict, Verdict::Satisfied);
    assert_eq!(out.verdict, failed(vec![Reason::ChildNotSatisfied { index: 1 }]));
    let more = selection(vec![
        course("CSSE2310", 2000, 2),
        course("MATH1051", 1000, 2),
        course("CSSE3010", 3000, 2),
    ]);
    assert_eq!(evaluate(&tree, &more).verdict, Verdict::Satisfied);
}

#[test]
fn a_nested_node_starts_afresh() {
    let inner = node(None, vec![wildcard_leaf("CSSE")]);
    let tree = node(None, vec![reference_leaf("CSSE2310"), inner]);
    let sel = selection(vec![course("CSSE2310", 2000, 2)]);
    let out = evaluate(&tree, &sel);
    assert_eq!(out.verdict, Verdict::Satisfied);
    assert_eq!(out.children[1].children[0].verdict, Verdict::Satisfied);
}

#[test]
fn all_children_are_required_by_default_and_under_and() {
    for logic in [None, Some(RuleLogic::And)] {
        let tree = node(logic, vec![reference_leaf("CSSE2310"), reference_leaf("MATH1051")]);
        let both = selection(vec![course("CSSE2310", 2000, 2), course("MATH1051", 1000, 2)]);
        assert_eq!(evaluate(&tree, &both).verdict, Verdict::Satisfied);
        let one = selection(vec![course("MATH1051", 1000, 2)]);
        assert_eq!(
            evaluate(&tree, &one).verdict,
            failed(vec![Reason::ChildNotSatisfied { index: 0 }])
        );
        assert_eq!(
            evaluate(&tree, &selection(vec![])).verdict,
            failed(vec![
                Reason::ChildNotSatisfied { index: 0 },
                Reason::ChildNotSatisfied { index: 1 }
            ])
        );
    }
}

#[test]
fn one_child_is_enough_under_or() {
    let tree = node(Some(RuleLogic::Or), vec![reference_leaf("CSSE2310"), reference_leaf("MATH1051")]);
    let one = selection(vec![course("MATH1051", 1000, 2)]);
    assert_eq!(evaluate(&tree, &one).verdict, Verdict::Satisfied);
    assert_eq!(
        evaluate(&tree, &selection(vec![])).verdict,
        failed(vec![Reason::ChildNotSatisfied { index: 0 }, Reason::ChildNotSatisfied { index: 1 }])
    );
    let empty = node(Some(RuleLogic::Or), vec![]);
    assert_eq!(evaluate(&empty, &selection(vec![])).verdict, Verdict::Satisfied);
}

#[test]
fn unknown_logic_leaves_the_node_undecided() {
    let tree = node(Some(RuleLogic::Unknown("XOR".to_string())), vec![reference_leaf("CSSE2310")]);
    let sel = selection(vec![course("CSSE2310", 2000, 2)]);
    let out = evaluate(&tree, &sel);
    assert_eq!(out.children[0].verdict, Verdict::Satisfied);
    assert_eq!(out.verdict, undecided(vec![Reason::UnknownLogic { text: "XOR".to_string() }]));
    assert_eq!(out.verdict.status(), Status::Indeterminate);
}

#[test]
fn a_node_without_children_checks_its_rules_and_bounds_only() {
    let mut h = header(None);
    h.units_min = Some(4);
    h.auxiliary_rules = vec![rule(AuxiliaryRuleKind::Ar2 { n: 2, level: 1000 })];
    let tree = ComponentPayload::Node { header: h, body: vec![] };
    let good = selection(vec![course("CSSE2310", 2000, 2), course("MATH1051", 1000, 2)]);
    let out = evaluate(&tree, &good);
    assert_eq!(out.verdict, Verdict::Satisfied);
    assert_eq!(out.rules, vec![Verdict::Satisfied]);
    assert_eq!(out.children.len(), 0);
    let short = selection(vec![course("MATH1051", 1000, 2)]);
    assert_eq!(evaluate(&tree, &short).verdict, failed(vec![Reason::UnitsBelowMinimum]));
    let heavy = selection(vec![course("CSSE1001", 1000, 2), course("MATH1051", 1000, 2)]);
    let out = evaluate(&tree, &heavy);
    assert_eq!(out.rules, vec![failed(vec![Reason::TooManyUnits])]);
    assert_eq!(out.verdict, failed(vec![Reason::RuleNotSatisfied { index: 0 }]));
}

#[test]
fn bounds_count_the_courses_of_the_subtree() {
    let mut h = header(None);
    h.units_min = Some(4);
    h.units_max = Some(6);
    let tree = ComponentPayload::Node {
        header: h,
        body: vec![wildcard_leaf("CSSE"), ComponentPayload::Leaf(group(vec!["MATH1051", "MATH1071"]))],
    };
    let sel = selection(vec![
        course("CSSE2310", 2000, 2),
        course("MATH1051", 1000, 2),
        course("STAT1201", 1000, 8),
    ]);
    assert_eq!(compute_credit(&header(None), &vec![wildcard_leaf("CSSE")], &sel), vec![true, false, false]);
    assert_eq!(evaluate(&tree, &sel).verdict, Verdict::Satisfied);
    let over = selection(vec![
        course("CSSE2310", 2000, 2),
        course("CSSE3010", 3000, 2),
        course("CSSE1001", 1000, 2),
        course("MATH1051", 1000, 2),
    ]);
    assert_eq!(evaluate(&tree, &over).verdict, failed(vec![Reason::UnitsAboveMaximum]));
    let under = selection(vec![course("CSSE2310", 2000, 1), course("MATH1071", 1000, 2)]);
    assert_eq!(evaluate(&tree, &under).verdict, failed(vec![Reason::UnitsBelowMinimum]));
}

#[test]
fn bounds_are_undecided_without_units() {
    let mut h = header(None);
    h.units_max = Some(10);
    let sel = selection(vec![SelectedCourse {
        code: code("CSSE2310"),
        facts: None,
        discipline: None,
        org_code: None,
    }]);
    assert_eq!(
        evaluate_bounds(&h, &sel, &vec![true]),
        undecided(vec![Reason::MissingCatalogData])
    );
    assert_eq!(evaluate_bounds(&h, &sel, &vec![false]), Verdict::Satisfied);
    assert_eq!(evaluate_bounds(&header(None), &sel, &vec![true]), Verdict::Satisfied);
}

#[test]
fn bounds_with_odd_limits() {
    let sel = selection(vec![course("CSSE2310", 2000, 2)]);
    let mut h = header(None);
    h.units_min = Some(-5);
    assert_eq!(evaluate_bounds(&h, &sel, &vec![true]), Verdict::Satisfied);
    h.units_min = None;
    h.units_max = Some(-1);
    assert_eq!(evaluate_bounds(&h, &sel, &vec![true]), failed(vec![Reason::UnitsAboveMaximum]));
    h.units_max = Some(2);
    assert_eq!(evaluate_bounds(&h, &sel, &vec![true]), Verdict::Satisfied);
    h.units_min = Some(3);
    h.units_max = Some(1);
    assert_eq!(evaluate_bounds(&h, &sel, &vec![true]), failed(vec![Reason::UnitsBelowMinimum]));
    assert_eq!(count_credited_units(&sel, &vec![true]), 2);
    assert_eq!(count_credited_units(&sel, &vec![]), 0);
}

#[test]
fn listed_course_gives_no_credit_even_when_taken() {
    let mut h = header(None);
    h.auxiliary_rules = vec![rule(AuxiliaryRuleKind::Ar9 { course_list: vec![code("CSSE2310")] })];
    let body = vec![reference_leaf("CSSE2310"), reference_leaf("MATH1051")];
    let with = selection(vec![course("CSSE2310", 2000, 2), course("MATH1051", 1000, 2)]);
    assert_eq!(compute_credit(&h, &body, &with), vec![false, true]);
    assert_eq!(count_credited_units(&with, &compute_credit(&h, &body, &with)), 2);
    let without = selection(vec![course("MATH1051", 1000, 2)]);
    assert_eq!(compute_credit(&h, &body, &without), vec![true]);
    let twice = selection(vec![
        course("CSSE2310", 2000, 2),
        course("CSSE2310", 2000, 2),
        course("MATH1051", 1000, 2),
    ]);
    assert_eq!(compute_credit(&h, &body, &twice), vec![false, false, true]);
    h.units_min = Some(4);
    let tree = ComponentPayload::Node { header: h, body };
    let out = evaluate(&tree, &with);
    assert_eq!(out.rules, vec![Verdict::Satisfied]);
    assert_eq!(out.children[0].verdict, Verdict::Satisfied);
    assert_eq!(out.verdict, failed(vec![Reason::UnitsBelowMinimum]));
}

#[test]
fn credit_depends_on_the_plans_for_conditional_rules() {
    let body = vec![reference_leaf("CSSE2310")];
    let mut sel = selection(vec![course("CSSE2310", 2000, 2)]);
    let mut for_plan = header(None);
    for_plan.auxiliary_rules = vec![rule(AuxiliaryRuleKind::Ar10 {
        course_list: vec![code("CSSE2310")],
        plan_list: vec![ProgramCode { code: "SOFTX".to_string() }],
    })];
    let mut unless_plan = header(None);
    unless_plan.auxiliary_rules = vec![rule(AuxiliaryRuleKind::Ar11 {
        course_list: vec![code("CSSE2310")],
        plan_list: vec![ProgramCode { code: "SOFTX".to_string() }],
    })];
    assert_eq!(compute_credit(&for_plan, &body, &sel), vec![true]);
    assert_eq!(compute_credit(&unless_plan, &body, &sel), vec![true]);
    sel.programs = Some(vec![]);
    assert_eq!(compute_credit(&for_plan, &body, &sel), vec![true]);
    assert_eq!(compute_credit(&unless_plan, &body, &sel), vec![false]);
    sel.programs = Some(vec![ProgramCode { code: "SOFTX".to_string() }]);
    assert_eq!(compute_credit(&for_plan, &body, &sel), vec![false]);
    assert_eq!(compute_credit(&unless_plan, &body, &sel), vec![true]);
}

#[test]
fn rules_of_a_node_count_its_credited_courses() {
    let mut h = header(Some(RuleLogic::Or));
    h.auxiliary_rules = vec![
        rule(AuxiliaryRuleKind::Ar1 { n: 4, spec: LevelSpec { level: 2000, or_higher: true } }),
        rule(AuxiliaryRuleKind::ArUnknown { text: "See the handbook".to_string(), raw_params: vec![] }),
    ];
    let tree = ComponentPayload::Node {
        header: h,
        body: vec![reference_leaf("CSSE2310"), reference_leaf("CSSE3010")],
    };
    let sel = selection(vec![
        course("CSSE2310", 2000, 2),
        course("COMP3506", 3000, 2),
        course("CSSE3010", 3000, 2),
    ]);
    let out = evaluate(&tree, &sel);
    assert_eq!(
        out.rules,
        vec![
            Verdict::Satisfied,
            undecided(vec![Reason::UnknownRule { text: "See the handbook".to_string() }])
        ]
    );
    assert_eq!(out.verdict, undecided(vec![Reason::RuleNotSatisfied { index: 1 }]));
    let fewer = selection(vec![course("CSSE2310", 2000, 2), course("COMP3506", 3000, 2)]);
    let out = evaluate(&tree, &fewer);
    assert_eq!(out.rules[0], failed(vec![Reason::TooFewUnits]));
    assert_eq!(
        out.verdict,
        failed(vec![Reason::RuleNotSatisfied { index: 0 }, Reason::RuleNotSatisfied { index: 1 }])
    );
}

#[test]
fn failure_outweighs_doubt() {
    let mut h = header(None);
    h.auxiliary_rules =
        vec![rule(AuxiliaryRuleKind::ArUnknown { text: "?".to_string(), raw_params: vec![] })];
    let tree = ComponentPayload::Node { header: h, body: vec![reference_leaf("CSSE2310")] };
    let out = evaluate(&tree, &selection(vec![]));
    assert_eq!(
        out.verdict,
        failed(vec![Reason::ChildNotSatisfied { index: 0 }, Reason::RuleNotSatisfied { index: 0 }])
    );
    let outer = node(Some(RuleLogic::Or), vec![reference_leaf("MATH1051"), tree]);
    let sel = selection(vec![course("CSSE2310", 2000, 2)]);
    let out = evaluate(&outer, &sel);
    assert_eq!(out.children[1].verdict.status(), Status::Indeterminate);
    assert_eq!(
        out.verdict,
        undecided(vec![Reason::ChildNotSatisfied { index: 0 }, Reason::ChildNotSatisfied { index: 1 }])
    );
}

#[test]
fn verdict_tree_has_the_shape_of_the_tree() {
    let tree = node(
        None,
        vec![
            reference_leaf("CSSE2310"),
            node(Some(RuleLogic::Or), vec![reference_leaf("MATH1051"), wildcard_leaf("STAT")]),
            ComponentPayload::Leaf(group(vec!["COMP3506"])),
        ],
    );
    let out = evaluate(&tree, &selection(vec![course("STAT1201", 1000, 2)]));
    assert_eq!(out.children.len(), 3);
    assert_eq!(out.children[0].children.len(), 0);
    assert_eq!(out.children[1].children.len(), 2);
    assert_eq!(out.children[1].verdict, Verdict::Satisfied);
    assert_eq!(out.children[2].verdict, failed(vec![Reason::NoEquivalentSelected]));
    assert_eq!(
        out.verdict,
        failed(vec![Reason::ChildNotSatisfied { index: 0 }, Reason::ChildNotSatisfied { index: 2 }])
    );
    let again = evaluate_in(&tree, &selection(vec![course("STAT1201", 1000, 2)]), &vec![true]);
    assert_eq!(again, out);
}

#[test]
fn courses_belong_to_the_subtree_that_admits_them() {
    let tree = node(None, vec![reference_leaf("CSSE2310"), node(None, vec![wildcard_leaf("MATH1")])]);
    assert!(is_attributable(&tree, &course("CSSE2310", 2000, 2)));
    assert!(is_attributable(&tree, &course("MATH1051", 1000, 2)));
    assert!(!is_attributable(&tree, &course("MATH2001", 2000, 2)));
    assert!(is_attributable(&node(None, vec![]), &course("MATH2001", 2000, 2)));
    assert!(!is_attributable(&ComponentPayload::Leaf(group(vec![])), &course("MATH2001", 2000, 2)));
}

fn members(list: Vec<EquivalenceGroup>) -> Vec<EquivalenceGroup> {
    list
}

fn member_of(order_number: i64, text: &str) -> EquivalenceGroup {
    EquivalenceGroup { order_number, notes: None, curriculum_reference: reference(text) }
}

fn object(list: Vec<(&str, JsonValue)>) -> JsonValue {
    JsonValue::Obj(
        list.into_iter().map(|(name, value)| JsonMember { name: name.to_string(), value }).collect(),
    )
}

fn word(s: &str) -> JsonValue {
    JsonValue::Str(s.to_string())
}

#[test]
fn the_member_to_report_is_the_first_by_order_number() {
    let g = members(vec![
        member_of(3, "MATH1051"),
        member_of(1, "MATH1071"),
        member_of(2, "MATH1052"),
        member_of(1, "MATH1050"),
    ]);
    let all = selection(vec![
        course("MATH1050", 1000, 2),
        course("MATH1051", 1000, 2),
        course("MATH1052", 1000, 2),
        course("MATH1071", 1000, 2),
    ]);
    assert_eq!(first_present_member(&g, &all), Some(1));
    let some = selection(vec![course("MATH1051", 1000, 2), course("MATH1052", 1000, 2)]);
    assert_eq!(first_present_member(&g, &some), Some(2));
    let tie = selection(vec![course("MATH1050", 1000, 2)]);
    assert_eq!(first_present_member(&g, &tie), Some(3));
    assert_eq!(first_present_member(&g, &selection(vec![])), None);
    assert_eq!(first_present_member(&vec![], &all), None);
}

#[test]
fn reasons_are_written_with_what_they_carry() {
    assert_eq!(
        reason_json(&Reason::TooFewUnits),
        object(vec![("kind", word("tooFewUnits"))])
    );
    assert_eq!(
        reason_json(&Reason::ChildNotSatisfied { index: 3 }),
        object(vec![("kind", word("childNotSatisfied")), ("index", JsonValue::Int(3))])
    );
    assert_eq!(
        reason_json(&Reason::RuleNotSatisfied { index: 0 }),
        object(vec![("kind", word("ruleNotSatisfied")), ("index", JsonValue::Int(0))])
    );
    assert_eq!(
        reason_json(&Reason::UnknownRule { text: "See the handbook".to_string() }),
        object(vec![("kind", word("unknownRule")), ("text", word("See the handbook"))])
    );
    assert_eq!(
        reason_json(&Reason::UnknownLogic { text: "XOR".to_string() }),
        object(vec![("kind", word("unknownLogic")), ("text", word("XOR"))])
    );
}

#[test]
fn verdicts_are_written_with_status_and_reasons() {
    assert_eq!(
        verdict_json(&Verdict::Satisfied),
        object(vec![("status", word("satisfied")), ("reasons", JsonValue::Arr(vec![]))])
    );
    assert_eq!(
        verdict_json(&failed(vec![Reason::UnitsBelowMinimum, Reason::NoWildcardMatch])),
        object(vec![
            ("status", word("unsatisfied")),
            (
                "reasons",
                JsonValue::Arr(vec![
                    object(vec![("kind", word("unitsBelowMinimum"))]),
                    object(vec![("kind", word("noWildcardMatch"))]),
                ])
            )
        ])
    );
    assert_eq!(
        verdict_json(&undecided(vec![Reason::MissingCatalogData])),
        object(vec![
            ("status", word("indeterminate")),
            ("reasons", JsonValue::Arr(vec![object(vec![("kind", word("missingCatalogData"))])]))
        ])
    );
}

#[test]
fn verdict_tree_is_written_in_the_shape_of_the_tree() {
    let mut h = header(None);
    h.auxiliary_rules = vec![rule(AuxiliaryRuleKind::Ar9 { course_list: vec![code("CSSE2310")] })];
    let tree = ComponentPayload::Node {
        header: h,
        body: vec![reference_leaf("CSSE2310"), reference_leaf("MATH1051")],
    };
    let out = evaluate(&tree, &selection(vec![course("CSSE2310", 2000, 2)]));
    let leaf = |status: &str, reasons: Vec<JsonValue>| {
        object(vec![
            ("status", word(status)),
            ("reasons", JsonValue::Arr(reasons)),
            ("rules", JsonValue::Arr(vec![])),
            ("children", JsonValue::Arr(vec![])),
        ])
    };
    assert_eq!(
        tree_json(&out),
        object(vec![
            ("status", word("unsatisfied")),
            (
                "reasons",
                JsonValue::Arr(vec![object(vec![
                    ("kind", word("childNotSatisfied")),
                    ("index", JsonValue::Int(1))
                ])])
            ),
            (
                "rules",
                JsonValue::Arr(vec![object(vec![
                    ("status", word("satisfied")),
                    ("reasons", JsonValue::Arr(vec![]))
                ])])
            ),
            (
                "children",
                JsonValue::Arr(vec![
                    leaf("satisfied", vec![]),
                    leaf("unsatisfied", vec![object(vec![("kind", word("referenceNotSelected"))])]),
                ])
            ),
        ])
    );
}

fn component(id: i64, payload: ComponentPayload) -> Component {
    Component {
        internal_component_identifier: id,
        component_integration_identifier: "part".to_string(),
        name: "Part".to_string(),
        kind: "Component".to_string(),
        payload,
    }
}

fn program(units_minimum: Option<i64>, components: Vec<Component>) -> ProgramRequirements {
    ProgramRequirements {
        code: Some("2455".to_string()),
        name: None,
        year_applied: Some("2025".to_string()),
        applicable_period: None,
        units_minimum,
        units_maximum: None,
        components,
    }
}

#[test]
fn a_program_needs_every_component_and_its_units() {
    let requirements = program(
        Some(6),
        vec![
            component(1, node(None, vec![reference_leaf("CSSE2310")])),
            component(2, wildcard_leaf("MATH")),
        ],
    );
    let all = selection(vec![
        course("CSSE2310", 2000, 2),
        course("MATH1051", 1000, 2),
        course("STAT1201", 1000, 2),
    ]);
    let out = evaluate_program(&requirements, &all);
    assert_eq!(out.verdict, Verdict::Satisfied);
    assert_eq!(out.components.len(), 2);
    assert_eq!(out.components[0], evaluate(&requirements.components[0].payload, &all));
    let short = selection(vec![course("CSSE2310", 2000, 2), course("MATH1051", 1000, 2)]);
    assert_eq!(
        evaluate_program(&requirements, &short).verdict,
        failed(vec![Reason::UnitsBelowMinimum])
    );
    let other = selection(vec![
        course("CSSE2310", 2000, 2),
        course("STAT1201", 1000, 2),
        course("STAT2203", 2000, 2),
    ]);
    let out = evaluate_program(&requirements, &other);
    assert_eq!(out.verdict, failed(vec![Reason::ChildNotSatisfied { index: 1 }]));
    assert_eq!(out.components[1].verdict, failed(vec![Reason::NoWildcardMatch]));
    let nothing = evaluate_program(&requirements, &selection(vec![]));
    assert_eq!(
        nothing.verdict,
        failed(vec![
            Reason::ChildNotSatisfied { index: 0 },
            Reason::ChildNotSatisfied { index: 1 },
            Reason::UnitsBelowMinimum
        ])
    );
    let empty = evaluate_program(&program(None, vec![]), &selection(vec![]));
    assert_eq!(empty.verdict, Verdict::Satisfied);
    assert_eq!(empty.components, vec![]);
}

#[test]
fn a_node_with_an_unknown_rule_never_passes() {
    let mut h = header(Some(RuleLogic::Or));
    h.auxiliary_rules = vec![
        rule(AuxiliaryRuleKind::Ar9 { course_list: vec![] }),
        rule(AuxiliaryRuleKind::ArUnknown { text: "New".to_string(), raw_params: vec![] }),
    ];
    let tree = ComponentPayload::Node { header: h, body: vec![reference_leaf("CSSE2310")] };
    for sel in [
        selection(vec![]),
        selection(vec![course("CSSE2310", 2000, 2)]),
        selection(vec![course("CSSE2310", 2000, 2), course("MATH1051", 1000, 2)]),
    ] {
        assert!(!evaluate(&tree, &sel).verdict.is_satisfied());
    }
}
