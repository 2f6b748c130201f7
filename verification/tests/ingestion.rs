use degree_verifier::classify::{classify_rule, find_param, read_units};
use degree_verifier::eval::evaluate_program;
use degree_verifier::selection::{CourseFacts, DisciplineGrouping, SelectedCourse, StudentSelection};
use degree_verifier::verdict::{Reason, Verdict};
use degree_verifier::document::{
    ingest_document, read_info, DegreeInfo, Domestic, IngestReport, International, Params, Status,
};
use degree_verifier::ident::{parse_course_code, ProgramCode};
use degree_verifier::ingest::{
    read_header, read_leaf, read_param, read_payload, read_reference, read_rule, SkipKind,
    SkipRecord,
};
use degree_verifier::json::{JsonMember, JsonValue, Param};
use degree_verifier::part::parse_part_label;
use degree_verifier::rule::{AuxiliaryRuleKind, LevelSpec};
use degree_verifier::tree::{ComponentPayload, ComponentPayloadLeaf, RuleLogic};

fn text(s: &str) -> JsonValue {
    JsonValue::Str(s.to_string())
}

fn obj(members: Vec<(&str, JsonValue)>) -> JsonValue {
    JsonValue::Obj(
        members
            .into_iter()
            .map(|(name, value)| JsonMember { name: name.to_string(), value })
            .collect(),
    )
}

fn arr(items: Vec<JsonValue>) -> JsonValue {
    JsonValue::Arr(items)
}

fn param(name: &str, kind: &str, value: Option<JsonValue>) -> Param {
    Param { name: name.to_string(), kind: kind.to_string(), value }
}

fn coded(codes: Vec<&str>) -> JsonValue {
    arr(codes.into_iter().map(|c| obj(vec![("code", text(c)), ("name", text("x"))])).collect())
}

fn reference_record(code: &str) -> JsonValue {
    obj(vec![
        ("code", text(code)),
        ("orgName", text("School of Computing")),
        ("orgCode", text("EAIT")),
        ("type", text("Course")),
        ("version", JsonValue::Int(3)),
        ("name", text("A course")),
        ("state", text("Active")),
        ("latestVersion", JsonValue::Bool(true)),
        ("unitsMinimum", JsonValue::Int(2)),
    ])
}

fn reference_leaf_record(code: &str) -> JsonValue {
    obj(vec![
        ("rowType", text("curriculumReference")),
        ("orderNumber", JsonValue::Int(1)),
        ("curriculumReference", reference_record(code)),
    ])
}

fn component_record(id: i64, payload: JsonValue) -> JsonValue {
    obj(vec![
        ("internalComponentIdentifier", JsonValue::Int(id)),
        ("componentIntegrationIdentifier", text("core")),
        ("payload", payload),
        ("name", text("Core Courses")),
        ("type", text("Component")),
    ])
}

fn plans(list: &Vec<ProgramCode>) -> Vec<String> {
    list.iter().map(|p| p.code.clone()).collect()
}

#[test]
fn object_members_are_found_by_name() {
    let v = obj(vec![
        ("a", JsonValue::Int(1)),
        ("b", text("two")),
        ("a", JsonValue::Int(3)),
        ("c", JsonValue::Bool(false)),
        ("d", arr(vec![JsonValue::Null])),
    ]);
    assert_eq!(v.get("a"), Some(&JsonValue::Int(1)));
    assert_eq!(v.get("A"), None);
    assert_eq!(v.get("z"), None);
    assert_eq!(v.get_int("a"), Some(1));
    assert_eq!(v.get_int("b"), None);
    assert_eq!(v.get_str("b"), Some("two".to_string()));
    assert_eq!(v.get_str("a"), None);
    assert_eq!(v.get_bool("c"), Some(false));
    assert_eq!(v.get_bool("missing"), None);
    assert_eq!(v.get_items("d"), Some(&vec![JsonValue::Null]));
    assert_eq!(v.get_items("a"), None);
    assert_eq!(text("x").get("a"), None);
    assert!(v.as_object().is_some());
    assert!(v.as_array().is_none());
    assert_eq!(arr(vec![]).as_array(), Some(&vec![]));
}

#[test]
fn a_copy_of_a_value_is_equal() {
    let v = obj(vec![
        ("a", arr(vec![JsonValue::Int(-1), JsonValue::Real("1.5".to_string()), JsonValue::Null])),
        ("b", obj(vec![("c", text("d")), ("e", JsonValue::Bool(true))])),
    ]);
    assert_eq!(v.duplicate(), v);
    let p = param("N", "Integer", Some(JsonValue::Int(2)));
    assert_eq!(p.duplicate(), p);
}

#[test]
fn known_code_with_its_parameters_gives_the_typed_rule() {
    let rule = classify_rule(
        "AR1",
        "At least [N] units at level [LEVEL][OR_HIGHER]".to_string(),
        vec![
            param("N", "Integer", Some(JsonValue::Int(2))),
            param("LEVEL", "Integer", Some(JsonValue::Int(2000))),
            param("OR_HIGHER", "String", Some(text("or higher"))),
        ],
    );
    assert_eq!(
        rule,
        AuxiliaryRuleKind::Ar1 { n: 2, spec: LevelSpec { level: 2000, or_higher: true } }
    );
}

#[test]
fn parameter_names_match_without_case() {
    let params = vec![param("n", "Integer", Some(JsonValue::Int(7))), param("N", "Integer", None)];
    assert_eq!(read_units(&params, "N"), Some(7));
    assert_eq!(read_units(&params, "n"), Some(7));
    assert_eq!(read_units(&params, "m"), None);
    assert_eq!(find_param(&params, "N"), Some(&params[0]));
    assert_eq!(find_param(&params, "level"), None);
}

#[test]
fn units_have_to_fit_sixteen_bits() {
    let make = |v: i64| vec![param("n", "Integer", Some(JsonValue::Int(v)))];
    assert_eq!(read_units(&make(0), "n"), Some(0));
    assert_eq!(read_units(&make(65535), "n"), Some(65535));
    assert_eq!(read_units(&make(65536), "n"), None);
    assert_eq!(read_units(&make(-1), "n"), None);
    assert_eq!(read_units(&vec![param("n", "Integer", Some(text("2")))], "n"), None);
    assert_eq!(read_units(&vec![param("n", "Integer", None)], "n"), None);
}

#[test]
fn each_level_rule_is_classified() {
    let n = || param("N", "Integer", Some(JsonValue::Int(4)));
    let m = || param("M", "Integer", Some(JsonValue::Int(8)));
    let level = || param("LEVEL", "Integer", Some(JsonValue::Int(1)));
    let higher = |v: JsonValue| param("OR_HIGHER", "String", Some(v));
    assert_eq!(
        classify_rule("AR2", String::new(), vec![n(), level()]),
        AuxiliaryRuleKind::Ar2 { n: 4, level: 1 }
    );
    assert_eq!(
        classify_rule("AR3", String::new(), vec![n(), level(), higher(text(""))]),
        AuxiliaryRuleKind::Ar3 { n: 4, spec: LevelSpec { level: 1, or_higher: false } }
    );
    assert_eq!(
        classify_rule("AR3", String::new(), vec![n(), level(), higher(JsonValue::Bool(true))]),
        AuxiliaryRuleKind::Ar3 { n: 4, spec: LevelSpec { level: 1, or_higher: true } }
    );
    assert_eq!(
        classify_rule("AR4", String::new(), vec![n(), m(), level(), higher(JsonValue::Int(1))]),
        AuxiliaryRuleKind::Ar4 { n: 4, m: 8, spec: LevelSpec { level: 1, or_higher: true } }
    );
    assert_eq!(
        classify_rule("AR4", String::new(), vec![n(), m(), level(), param("or_higher", "", None)]),
        AuxiliaryRuleKind::Ar4 { n: 4, m: 8, spec: LevelSpec { level: 1, or_higher: false } }
    );
    assert_eq!(classify_rule("AR7", String::new(), vec![n()]), AuxiliaryRuleKind::Ar7 { n: 4 });
}

#[test]
fn each_list_rule_is_classified() {
    let courses = |name: &str, codes: Vec<&str>| param(name, "List", Some(coded(codes)));
    assert_eq!(
        classify_rule("AR9", String::new(), vec![courses("COURSE_LIST", vec!["CSSE2310", "MATH1051"])]),
        AuxiliaryRuleKind::Ar9 {
            course_list: vec![
                parse_course_code("CSSE2310").unwrap(),
                parse_course_code("MATH1051").unwrap()
            ]
        }
    );
    let rule = classify_rule(
        "AR5",
        String::new(),
        vec![courses("PLAN_LIST_1", vec!["BE_1"]), courses("PLAN_LIST_2", vec!["BSc_1", "BA_1"])],
    );
    match &rule {
        AuxiliaryRuleKind::Ar5 { plan_list_1, plan_list_2 } => {
            assert_eq!(plans(plan_list_1), vec!["BE_1"]);
            assert_eq!(plans(plan_list_2), vec!["BSc_1", "BA_1"]);
        }
        other => panic!("not the expected form: {:?}", other),
    }
    let rule = classify_rule(
        "AR20",
        String::new(),
        vec![
            param("PLAN_1", "Plan", Some(text("SOFTX"))),
            courses("PLAN_LIST_1", vec![]),
            courses("COURSE_LIST", vec!["CSSE2310"]),
            courses("PLAN_LIST_2", vec!["DATAX"]),
        ],
    );
    assert_eq!(
        rule,
        AuxiliaryRuleKind::Ar20 {
            plan_1: ProgramCode { code: "SOFTX".to_string() },
            plan_list_1: vec![],
            course_list: vec![parse_course_code("CSSE2310").unwrap()],
            plan_list_2: vec![ProgramCode { code: "DATAX".to_string() }],
        }
    );
    let rule = classify_rule(
        "AR17",
        String::new(),
        vec![
            courses("PLAN_LIST", vec!["SOFTX"]),
            courses("COURSE_LIST", vec!["CSSE2310"]),
            param("MUST/MAY", "String", Some(text("MAY"))),
            courses("PROGRAM_PLAN_LIST", vec!["BE"]),
            param("LISTS", "String", Some(arr(vec![text("List A"), obj(vec![("name", text("List B"))])]))),
        ],
    );
    assert_eq!(
        rule,
        AuxiliaryRuleKind::Ar17 {
            plan_list: vec![ProgramCode { code: "SOFTX".to_string() }],
            course_list: vec![parse_course_code("CSSE2310").unwrap()],
            must: false,
            program_plan_list: vec![ProgramCode { code: "BE".to_string() }],
            lists: vec!["List A".to_string(), "List B".to_string()],
        }
    );
    let rule = classify_rule(
        "AR18",
        String::new(),
        vec![
            courses("COURSE_LIST", vec!["CSSE2310"]),
            param("PROGRAM", "Program", Some(obj(vec![("code", text("BE"))]))),
        ],
    );
    assert_eq!(
        rule,
        AuxiliaryRuleKind::Ar18 {
            course_list: vec![parse_course_code("CSSE2310").unwrap()],
            program: ProgramCode { code: "BE".to_string() },
        }
    );
}

#[test]
fn unknown_code_keeps_text_and_parameters() {
    let params = vec![param("N", "Integer", Some(JsonValue::Int(2)))];
    let rule = classify_rule("AR99", "Something new".to_string(), params);
    assert_eq!(
        rule,
        AuxiliaryRuleKind::ArUnknown {
            text: "Something new".to_string(),
            raw_params: vec![param("N", "Integer", Some(JsonValue::Int(2)))],
        }
    );
    assert_eq!(
        classify_rule("", String::new(), vec![]),
        AuxiliaryRuleKind::ArUnknown { text: String::new(), raw_params: vec![] }
    );
    assert_eq!(
        classify_rule("ar1", "lower case".to_string(), vec![]),
        AuxiliaryRuleKind::ArUnknown { text: "lower case".to_string(), raw_params: vec![] }
    );
}

#[test]
fn known_code_with_a_missing_or_mistyped_parameter_degrades() {
    let unknown = |rule: AuxiliaryRuleKind| matches!(rule, AuxiliaryRuleKind::ArUnknown { .. });
    let n = || param("N", "Integer", Some(JsonValue::Int(2)));
    let level = || param("LEVEL", "Integer", Some(JsonValue::Int(1)));
    assert!(unknown(classify_rule("AR1", String::new(), vec![n(), level()])));
    assert!(unknown(classify_rule("AR2", String::new(), vec![n()])));
    assert!(unknown(classify_rule(
        "AR1",
        String::new(),
        vec![n(), level(), param("OR_HIGHER", "String", Some(text("perhaps")))]
    )));
    assert!(unknown(classify_rule(
        "AR2",
        String::new(),
        vec![n(), param("LEVEL", "Integer", Some(text("one")))]
    )));
    assert!(unknown(classify_rule(
        "AR9",
        String::new(),
        vec![param("COURSE_LIST", "List", Some(coded(vec!["CSSE2310", "CSSE231"])))]
    )));
    assert!(unknown(classify_rule(
        "AR9",
        String::new(),
        vec![param("COURSE_LIST", "List", Some(text("CSSE2310")))]
    )));
    assert!(unknown(classify_rule(
        "AR5",
        String::new(),
        vec![param("PLAN_LIST_1", "List", Some(coded(vec!["BE_1"])))]
    )));
    assert!(unknown(classify_rule(
        "AR15",
        String::new(),
        vec![
            param("COURSE_LIST", "List", Some(coded(vec!["CSSE2310"]))),
            param("MUST", "String", Some(text("should"))),
            param("PROGRAM_PLAN_LIST", "List", Some(coded(vec!["BE"]))),
            param("LISTS", "String", Some(text("List A"))),
        ]
    )));
    let kept = classify_rule("AR7", "No more than [N]".to_string(), vec![param("M", "Integer", None)]);
    assert_eq!(
        kept,
        AuxiliaryRuleKind::ArUnknown {
            text: "No more than [N]".to_string(),
            raw_params: vec![param("M", "Integer", None)],
        }
    );
}

#[test]
fn parameter_record_is_read_as_it_is() {
    let record = obj(vec![
        ("name", text("COURSE_LIST")),
        ("type", text("CurriculumReferenceList")),
        ("value", coded(vec!["CSSE2310"])),
    ]);
    assert_eq!(
        read_param(&record),
        param("COURSE_LIST", "CurriculumReferenceList", Some(coded(vec!["CSSE2310"])))
    );
    assert_eq!(read_param(&obj(vec![])), param("", "", None));
    assert_eq!(read_param(&JsonValue::Null), param("", "", None));
}

#[test]
fn rule_record_is_classified_and_attached() {
    let record = obj(vec![
        ("code", text("AR2")),
        ("text", text("At most [N] units at level [LEVEL]")),
        (
            "params",
            arr(vec![
                obj(vec![("name", text("N")), ("type", text("Integer")), ("value", JsonValue::Int(4))]),
                obj(vec![("name", text("LEVEL")), ("type", text("Integer")), ("value", JsonValue::Int(1))]),
            ]),
        ),
    ]);
    let part = Some(parse_part_label("A.1").unwrap());
    let rule = read_rule(&record, &part);
    assert_eq!(rule.part, part);
    assert_eq!(rule.rule, AuxiliaryRuleKind::Ar2 { n: 4, level: 1 });
    let broken = read_rule(&obj(vec![("text", text("words"))]), &None);
    assert_eq!(broken.part, None);
    assert_eq!(
        broken.rule,
        AuxiliaryRuleKind::ArUnknown { text: "words".to_string(), raw_params: vec![] }
    );
}

#[test]
fn header_is_read_with_optional_members_left_out() {
    let mut log: Vec<SkipRecord> = Vec::new();
    let h = read_header(
        &obj(vec![
            ("partUID", text("uid-1")),
            ("partReference", text("A.1")),
            ("ruleLogic", text("and")),
            ("unitsMin", JsonValue::Int(8)),
            ("title", text("Core")),
            ("auxiliaryRules", arr(vec![obj(vec![("code", text("AR77")), ("text", text("New"))])])),
            ("selectionRule", obj(vec![("code", text("SR1")), ("text", text("Choose"))])),
        ]),
        &mut log,
    );
    assert_eq!(log, vec![]);
    assert_eq!(h.part_uid, Some("uid-1".to_string()));
    assert_eq!(h.part, Some(parse_part_label("A.1").unwrap()));
    assert_eq!(h.rule_logic, Some(RuleLogic::And));
    assert_eq!(h.units_min, Some(8));
    assert_eq!(h.units_max, None);
    assert_eq!(h.title, "Core");
    assert_eq!(h.notes, None);
    assert_eq!(h.auxiliary_rules.len(), 1);
    assert_eq!(h.auxiliary_rules[0].part, h.part);
    assert_eq!(
        h.auxiliary_rules[0].rule,
        AuxiliaryRuleKind::ArUnknown { text: "New".to_string(), raw_params: vec![] }
    );
    let selection_rule = h.selection_rule.unwrap();
    assert_eq!(selection_rule.code, "SR1");
    assert_eq!(selection_rule.text, "Choose");
    assert_eq!(selection_rule.params, vec![]);
}

#[test]
fn header_records_what_it_fills_in() {
    let mut log: Vec<SkipRecord> = Vec::new();
    let h = read_header(
        &obj(vec![("partReference", text("1.A")), ("ruleLogic", text("Either"))]),
        &mut log,
    );
    assert_eq!(
        log,
        vec![
            SkipRecord { kind: SkipKind::MalformedPartLabel, index: 0 },
            SkipRecord { kind: SkipKind::DefaultedTitle, index: 0 }
        ]
    );
    assert_eq!(h.part, None);
    assert_eq!(h.title, "");
    assert_eq!(h.rule_logic, Some(RuleLogic::Unknown("Either".to_string())));
    let mut log: Vec<SkipRecord> = Vec::new();
    let h = read_header(&obj(vec![("title", text("T")), ("ruleLogic", text("Or"))]), &mut log);
    assert_eq!(log, vec![]);
    assert_eq!(h.rule_logic, Some(RuleLogic::Or));
    assert_eq!(h.part, None);
}

#[test]
fn reference_needs_its_required_members() {
    let r = read_reference(&reference_record("CSSE2310")).unwrap();
    assert_eq!(r.code, Some("CSSE2310".to_string()));
    assert_eq!(r.org_code, "EAIT");
    assert_eq!(r.org_name, "School of Computing");
    assert_eq!(r.kind, "Course");
    assert_eq!(r.name, "A course");
    assert_eq!(r.state, "Active");
    assert_eq!(r.version, JsonValue::Int(3));
    assert_eq!(r.latest_version, Some(true));
    assert_eq!(r.units_minimum, Some(2));
    assert_eq!(r.units_maximum, None);
    assert_eq!(r.subtype, None);
    for missing in ["orgName", "orgCode", "type", "version", "name", "state"] {
        let record = match reference_record("CSSE2310") {
            JsonValue::Obj(members) => {
                JsonValue::Obj(members.into_iter().filter(|m| m.name != missing).collect())
            }
            other => other,
        };
        assert_eq!(read_reference(&record), None);
    }
    let without_code = match reference_record("CSSE2310") {
        JsonValue::Obj(members) => {
            JsonValue::Obj(members.into_iter().filter(|m| m.name != "code").collect())
        }
        other => other,
    };
    assert_eq!(read_reference(&without_code).unwrap().code, None);
}

#[test]
fn leaf_row_type_is_read_without_case() {
    for tag in ["curriculumReference", "CurriculumReference", "CURRICULUMREFERENCE"] {
        let record = obj(vec![
            ("rowType", text(tag)),
            ("curriculumReference", reference_record("CSSE2310")),
        ]);
        assert!(matches!(
            read_leaf(&record),
            Some(ComponentPayloadLeaf::CurriculumReference { .. })
        ));
    }
    let wild = obj(vec![
        ("rowType", text("WildCardItem")),
        ("notes", text("any")),
        (
            "wildCardItem",
            obj(vec![
                ("code", text("CSSE3***")),
                ("includeChildOrgs", JsonValue::Bool(true)),
                ("type", text("Course")),
                ("orgCode", text("EAIT")),
            ]),
        ),
    ]);
    match read_leaf(&wild) {
        Some(ComponentPayloadLeaf::WildCardItem { order_number, notes, wild_card_item }) => {
            assert_eq!(order_number, None);
            assert_eq!(notes, Some("any".to_string()));
            assert_eq!(wild_card_item.code, "CSSE3***");
            assert!(wild_card_item.include_child_orgs);
            assert_eq!(wild_card_item.org_code, Some("EAIT".to_string()));
            assert_eq!(wild_card_item.org_name, None);
        }
        other => panic!("not a wildcard: {:?}", other),
    }
    let group = obj(vec![
        ("rowType", text("equivalenceGroup")),
        (
            "equivalenceGroup",
            arr(vec![
                obj(vec![("orderNumber", JsonValue::Int(1)), ("curriculumReference", reference_record("MATH1051"))]),
                obj(vec![("orderNumber", JsonValue::Int(2)), ("curriculumReference", reference_record("MATH1071"))]),
            ]),
        ),
    ]);
    match read_leaf(&group) {
        Some(ComponentPayloadLeaf::EquivalenceGroup { equivalence_group, .. }) => {
            assert_eq!(equivalence_group.len(), 2);
            assert_eq!(equivalence_group[1].order_number, 2);
            assert_eq!(equivalence_group[1].curriculum_reference.code, Some("MATH1071".to_string()));
        }
        other => panic!("not a group: {:?}", other),
    }
}

#[test]
fn leaf_that_lacks_what_identifies_it_is_not_read() {
    assert_eq!(read_leaf(&obj(vec![("rowType", text("somethingElse"))])), None);
    assert_eq!(read_leaf(&obj(vec![("rowType", text("curriculumReference"))])), None);
    assert_eq!(read_leaf(&obj(vec![("rowType", JsonValue::Int(1))])), None);
    assert_eq!(
        read_leaf(&obj(vec![
            ("rowType", text("wildCardItem")),
            ("wildCardItem", obj(vec![("code", text("CSSE"))]))
        ])),
        None
    );
    assert_eq!(
        read_leaf(&obj(vec![
            ("rowType", text("equivalenceGroup")),
            ("equivalenceGroup", arr(vec![obj(vec![("orderNumber", JsonValue::Int(1))])]))
        ])),
        None
    );
    let mut log: Vec<SkipRecord> = Vec::new();
    assert_eq!(read_payload(&obj(vec![("rowType", text("somethingElse"))]), &mut log), None);
    assert_eq!(read_payload(&text("leaf"), &mut log), None);
    assert_eq!(log, vec![]);
}

#[test]
fn one_malformed_leaf_among_five_is_skipped() {
    let node = obj(vec![
        ("header", obj(vec![("title", text("Core")), ("partReference", text("A"))])),
        (
            "body",
            arr(vec![
                reference_leaf_record("CSSE1001"),
                reference_leaf_record("CSSE2002"),
                obj(vec![("rowType", text("curriculumReference")), ("curriculumReference", text("oops"))]),
                reference_leaf_record("CSSE2310"),
                reference_leaf_record("MATH1051"),
            ]),
        ),
    ]);
    let mut log: Vec<SkipRecord> = Vec::new();
    let tree = read_payload(&node, &mut log).unwrap();
    assert_eq!(log, vec![SkipRecord { kind: SkipKind::MalformedChild, index: 2 }]);
    match tree {
        ComponentPayload::Node { header, body } => {
            assert_eq!(header.title, "Core");
            assert_eq!(body.len(), 4);
            let codes: Vec<Option<String>> = body
                .iter()
                .map(|child| match child {
                    ComponentPayload::Leaf(ComponentPayloadLeaf::CurriculumReference {
                        curriculum_reference,
                        ..
                    }) => curriculum_reference.code.clone(),
                    _ => None,
                })
                .collect();
            assert_eq!(
                codes,
                vec![
                    Some("CSSE1001".to_string()),
                    Some("CSSE2002".to_string()),
                    Some("CSSE2310".to_string()),
                    Some("MATH1051".to_string())
                ]
            );
        }
        other => panic!("not a node: {:?}", other),
    }
}

#[test]
fn skips_are_recorded_in_reading_order() {
    let inner = obj(vec![("body", arr(vec![JsonValue::Int(1), reference_leaf_record("CSSE2310")]))]);
    let node = obj(vec![
        ("header", obj(vec![("title", text("Outer"))])),
        ("body", arr(vec![JsonValue::Null, inner, obj(vec![("rowType", text("x"))])])),
    ]);
    let mut log = vec![SkipRecord { kind: SkipKind::MalformedComponent, index: 9 }];
    let tree = read_payload(&node, &mut log).unwrap();
    assert_eq!(
        log,
        vec![
            SkipRecord { kind: SkipKind::MalformedComponent, index: 9 },
            SkipRecord { kind: SkipKind::MalformedChild, index: 0 },
            SkipRecord { kind: SkipKind::DefaultedHeader, index: 0 },
            SkipRecord { kind: SkipKind::MalformedChild, index: 0 },
            SkipRecord { kind: SkipKind::MalformedChild, index: 2 },
        ]
    );
    match tree {
        ComponentPayload::Node { body, .. } => {
            assert_eq!(body.len(), 1);
            match &body[0] {
                ComponentPayload::Node { header, body } => {
                    assert_eq!(header.title, "");
                    assert_eq!(body.len(), 1);
                }
                other => panic!("not a node: {:?}", other),
            }
        }
        other => panic!("not a node: {:?}", other),
    }
}

#[test]
fn wrapped_and_flat_documents_read_alike() {
    let components = || {
        arr(vec![
            component_record(1, obj(vec![("header", obj(vec![("title", text("Core"))]))])),
            obj(vec![("name", text("no payload"))]),
            component_record(3, reference_leaf_record("CSSE2310")),
        ])
    };
    let requirements = || {
        obj(vec![
            ("code", text("2455")),
            ("name", text("Bachelor of Engineering")),
            ("yearApplied", text("2025")),
            ("unitsMinimum", JsonValue::Int(64)),
            ("applicablePeriod", obj(vec![("fromYear", text("2025")), ("fromTerm", text("1"))])),
            ("payload", obj(vec![("components", components())])),
        ])
    };
    let wrapped = obj(vec![("title", text("BE")), ("programRequirements", requirements())]);
    let expected_log = vec![SkipRecord { kind: SkipKind::MalformedComponent, index: 1 }];
    let from_wrapped: IngestReport = ingest_document(&wrapped);
    let from_bare = ingest_document(&requirements());
    let from_flat = ingest_document(&components());
    assert_eq!(from_wrapped.requirements, from_bare.requirements);
    assert_eq!(from_wrapped.skipped, from_bare.skipped);
    assert_eq!(from_wrapped.info.title, Some("BE".to_string()));
    assert_eq!(from_bare.info.title, None);
    assert_eq!(from_wrapped.skipped, expected_log);
    assert_eq!(from_flat.skipped, expected_log);
    assert_eq!(from_flat.requirements.components, from_wrapped.requirements.components);
    assert_eq!(from_flat.requirements.code, None);
    let r = from_wrapped.requirements;
    assert_eq!(r.code, Some("2455".to_string()));
    assert_eq!(r.name, Some("Bachelor of Engineering".to_string()));
    assert_eq!(r.year_applied, Some("2025".to_string()));
    assert_eq!(r.units_minimum, Some(64));
    assert_eq!(r.units_maximum, None);
    let period = r.applicable_period.unwrap();
    assert_eq!(period.from_year, "2025");
    assert_eq!(period.to_year, None);
    assert_eq!(r.components.len(), 2);
    assert_eq!(r.components[0].internal_component_identifier, 1);
    assert_eq!(r.components[1].internal_component_identifier, 3);
    assert_eq!(r.components[1].name, "Core Courses");
    assert_eq!(r.components[1].kind, "Component");
    assert!(matches!(r.components[1].payload, ComponentPayload::Leaf(_)));
}

#[test]
fn a_document_without_components_reads_as_empty() {
    for doc in [JsonValue::Null, obj(vec![]), text("x"), obj(vec![("payload", JsonValue::Int(1))])] {
        let report = ingest_document(&doc);
        assert_eq!(report.requirements.components, vec![]);
        assert_eq!(report.skipped, vec![]);
    }
}

#[test]
fn reading_twice_gives_the_same_tree() {
    let doc = arr(vec![
        component_record(
            1,
            obj(vec![
                (
                    "header",
                    obj(vec![
                        ("title", text("Core")),
                        ("partReference", text("A")),
                        ("ruleLogic", text("AND")),
                        (
                            "auxiliaryRules",
                            arr(vec![obj(vec![
                                ("code", text("AR9")),
                                ("text", text("No credit for [COURSE_LIST].")),
                                (
                                    "params",
                                    arr(vec![obj(vec![
                                        ("name", text("COURSE_LIST")),
                                        ("type", text("List")),
                                        ("value", coded(vec!["CSSE2310"])),
                                    ])]),
                                ),
                            ])]),
                        ),
                    ]),
                ),
                ("body", arr(vec![reference_leaf_record("CSSE2310"), JsonValue::Bool(true)])),
            ]),
        ),
    ]);
    let first = ingest_document(&doc);
    let second = ingest_document(&doc.duplicate());
    assert_eq!(first, second);
    assert_eq!(first.skipped, vec![SkipRecord { kind: SkipKind::MalformedChild, index: 1 }]);
    match &first.requirements.components[0].payload {
        ComponentPayload::Node { header, body } => {
            assert_eq!(body.len(), 1);
            assert_eq!(
                header.auxiliary_rules[0].rule,
                AuxiliaryRuleKind::Ar9 { course_list: vec![parse_course_code("CSSE2310").unwrap()] }
            );
        }
        other => panic!("not a node: {:?}", other),
    }
}

#[test]
fn program_information_is_read_where_it_is_there() {
    let doc = obj(vec![
        ("title", text("Bachelor of Engineering (Honours)")),
        ("params", obj(vec![("type", text("program")), ("code", text("2455")), ("year", text("2025"))])),
        (
            "status",
            obj(vec![
                ("noLongerOffered", JsonValue::Bool(false)),
                (
                    "domestic",
                    obj(vec![("suspension", JsonValue::Bool(false)), ("available", JsonValue::Bool(true))]),
                ),
                (
                    "international",
                    obj(vec![("suspension", JsonValue::Bool(true)), ("available", JsonValue::Bool(false))]),
                ),
            ]),
        ),
        ("yearOptions", arr(vec![text("2025"), text("2024")])),
    ]);
    assert_eq!(
        read_info(&doc),
        DegreeInfo {
            title: Some("Bachelor of Engineering (Honours)".to_string()),
            params: Some(Params {
                kind: "program".to_string(),
                code: "2455".to_string(),
                year: "2025".to_string()
            }),
            status: Some(Status {
                no_longer_offered: false,
                domestic: Domestic { suspension: false, available: true },
                international: Some(International { suspension: true, available: false }),
            }),
            year_options: vec!["2025".to_string(), "2024".to_string()],
        }
    );
    assert_eq!(ingest_document(&doc).info, read_info(&doc));
}

#[test]
fn program_information_that_is_incomplete_is_left_out() {
    let nothing = DegreeInfo { title: None, params: None, status: None, year_options: vec![] };
    assert_eq!(read_info(&obj(vec![])), nothing);
    assert_eq!(read_info(&arr(vec![])), nothing);
    let doc = obj(vec![
        ("title", JsonValue::Int(1)),
        ("params", obj(vec![("type", text("program")), ("code", text("2455"))])),
        (
            "status",
            obj(vec![
                ("noLongerOffered", JsonValue::Bool(true)),
                ("domestic", obj(vec![("suspension", JsonValue::Bool(false))])),
            ]),
        ),
        ("yearOptions", arr(vec![text("2025"), JsonValue::Int(2024)])),
    ]);
    assert_eq!(read_info(&doc), nothing);
    let partly = obj(vec![(
        "status",
        obj(vec![
            ("noLongerOffered", JsonValue::Bool(true)),
            (
                "domestic",
                obj(vec![("suspension", JsonValue::Bool(false)), ("available", JsonValue::Bool(false))]),
            ),
            ("international", text("n/a")),
        ]),
    )]);
    assert_eq!(
        read_info(&partly).status,
        Some(Status {
            no_longer_offered: true,
            domestic: Domestic { suspension: false, available: false },
            international: None,
        })
    );
}

#[test]
fn a_document_is_read_and_then_evaluated() {
    let rule_record = obj(vec![
        ("code", text("AR1")),
        ("text", text("At least [N] units at level [LEVEL][OR_HIGHER]")),
        (
            "params",
            arr(vec![
                obj(vec![("name", text("N")), ("type", text("Integer")), ("value", JsonValue::Int(4))]),
                obj(vec![("name", text("LEVEL")), ("type", text("Integer")), ("value", JsonValue::Int(2))]),
                obj(vec![("name", text("OR_HIGHER")), ("type", text("String")), ("value", text("or higher"))]),
            ]),
        ),
    ]);
    let doc = obj(vec![(
        "programRequirements",
        obj(vec![
            ("code", text("2455")),
            (
                "payload",
                obj(vec![(
                    "components",
                    arr(vec![component_record(
                        1,
                        obj(vec![
                            (
                                "header",
                                obj(vec![
                                    ("title", text("Core")),
                                    ("partReference", text("A")),
                                    ("ruleLogic", text("AND")),
                                    ("unitsMin", JsonValue::Int(4)),
                                    ("auxiliaryRules", arr(vec![rule_record])),
                                ]),
                            ),
                            (
                                "body",
                                arr(vec![
                                    reference_leaf_record("CSSE2310"),
                                    reference_leaf_record("CSSE3010"),
                                ]),
                            ),
                        ]),
                    )]),
                )]),
            ),
        ]),
    )]);
    let report = ingest_document(&doc);
    assert_eq!(report.skipped, vec![]);
    let taken = |codes: Vec<(&str, u16)>| StudentSelection {
        courses: codes
            .into_iter()
            .map(|(code, level)| SelectedCourse {
                code: parse_course_code(code).unwrap(),
                facts: Some(CourseFacts { level, units: 2 }),
                discipline: None,
                org_code: None,
            })
            .collect(),
        programs: None,
        grouping: DisciplineGrouping::CodePrefix,
    };
    let done = evaluate_program(&report.requirements, &taken(vec![("CSSE2310", 2), ("CSSE3010", 3)]));
    assert_eq!(done.verdict, Verdict::Satisfied);
    assert_eq!(done.components[0].rules, vec![Verdict::Satisfied]);
    let half = evaluate_program(&report.requirements, &taken(vec![("CSSE2310", 2), ("MATH1051", 1)]));
    assert_eq!(
        half.components[0].verdict,
        Verdict::Unsatisfied {
            reasons: vec![
                Reason::ChildNotSatisfied { index: 1 },
                Reason::RuleNotSatisfied { index: 0 },
                Reason::UnitsBelowMinimum
            ]
        }
    );
    assert_eq!(
        half.verdict,
        Verdict::Unsatisfied { reasons: vec![Reason::ChildNotSatisfied { index: 0 }] }
    );
}
