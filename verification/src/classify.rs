//! From a rule's code and named parameters to a typed rule.
//!
//! Parameter names are matched without regard to the case of letters. A code
//! that is not known, or a known code with a required parameter missing or of
//! the wrong type, gives the fallback form, which keeps text and parameters
//! as they came.
use crate::ident::{parse_course_code, spec_parse_course_code, CourseCode, ProgramCode, Units};
use crate::json::{
    lemma_models, model, models, param_models, text_field, JsonModel, JsonValue, Param,
    ParamModel,
};
use crate::rule::{codes, plans, texts, AuxiliaryRuleKind, LevelSpec, RuleModel};
use crate::text::{same_ignoring_case, same_text, same_text_ignoring_case};
use vstd::prelude::*;

verus! {

/// The first parameter, from position `from` on, whose name is `name` up to
/// the case of letters.
pub open spec fn param_from(params: Seq<ParamModel>, name: Seq<char>, from: int) -> Option<
    ParamModel,
>
    decreases params.len() - from,
{
    if from < 0 || from >= params.len() {
        None
    } else if same_ignoring_case(params[from].name, name) {
        Some(params[from])
    } else {
        param_from(params, name, from + 1)
    }
}

/// The first parameter whose name is `name` up to the case of letters.
pub open spec fn param(params: Seq<ParamModel>, name: Seq<char>) -> Option<ParamModel> {
    param_from(params, name, 0)
}

/// A count of units or a level: a whole number from 0 to 65535.
pub open spec fn units_param(params: Seq<ParamModel>, name: Seq<char>) -> Option<Units> {
    match param(params, name) {
        Some(p) => match p.value {
            Some(JsonModel::Int(v)) => if 0 <= v <= 65535 {
                Some(v as u16)
            } else {
                None
            },
            _ => None,
        },
        None => None,
    }
}

/// What a value says as a yes or no, where `yes` and `no` are the words for
/// the two. A truth value stands for itself, 1 and 0 for yes and no, the
/// words `true` and `yes` for yes, and `false`, `no` and the empty text
/// for no, all without regard to case. A missing or null value says no.
/// Anything else says nothing.
pub open spec fn flag_of(value: Option<JsonModel>, yes: Seq<char>, no: Seq<char>) -> Option<bool> {
    match value {
        None => Some(false),
        Some(JsonModel::Null) => Some(false),
        Some(JsonModel::Bool(b)) => Some(b),
        Some(JsonModel::Int(v)) => if v == 1 {
            Some(true)
        } else if v == 0 {
            Some(false)
        } else {
            None
        },
        Some(JsonModel::Str(s)) => if same_ignoring_case(s, "true"@) || same_ignoring_case(
            s,
            yes,
        ) {
            Some(true)
        } else if same_ignoring_case(s, "false"@) || same_ignoring_case(s, no) || s.len() == 0 {
            Some(false)
        } else {
            None
        },
        _ => None,
    }
}

/// The parameter that says whether higher levels count too.
pub open spec fn or_higher_param(params: Seq<ParamModel>) -> Option<bool> {
    match param(params, "or_higher"@) {
        Some(p) => flag_of(p.value, "or higher"@, "no"@),
        None => None,
    }
}

/// The parameter that says whether a substitution is required (`must`) or
/// allowed (`may`). It is named `must` or `must/may`.
pub open spec fn must_param(params: Seq<ParamModel>) -> Option<bool> {
    match param(params, "must"@) {
        Some(p) => flag_of(p.value, "must"@, "may"@),
        None => match param(params, "must/may"@) {
            Some(p) => flag_of(p.value, "must"@, "may"@),
            None => None,
        },
    }
}

/// The course that an entry of a course list names: its member `code`, read
/// as a course code.
pub open spec fn item_course(item: JsonModel) -> Option<(Seq<char>, Seq<char>)> {
    match text_field(item, "code"@) {
        Some(s) => spec_parse_course_code(s),
        None => None,
    }
}

/// The plan that an entry of a plan list names: its member `code`.
pub open spec fn item_plan(item: JsonModel) -> Option<Seq<char>> {
    text_field(item, "code"@)
}

/// The list that an entry names: the entry itself where it is a string, else
/// its member `name`.
pub open spec fn item_name(item: JsonModel) -> Option<Seq<char>> {
    match item {
        JsonModel::Str(s) => Some(s),
        _ => text_field(item, "name"@),
    }
}

/// The courses of an array, where every entry names one.
pub open spec fn course_items(items: Seq<JsonModel>) -> Option<Seq<(Seq<char>, Seq<char>)>> {
    if forall|i: int| 0 <= i < items.len() ==> item_course(#[trigger] items[i]) is Some {
        Some(Seq::new(items.len(), |i: int| item_course(items[i])->Some_0))
    } else {
        None
    }
}

/// The plans of an array, where every entry names one.
pub open spec fn plan_items(items: Seq<JsonModel>) -> Option<Seq<Seq<char>>> {
    if forall|i: int| 0 <= i < items.len() ==> item_plan(#[trigger] items[i]) is Some {
        Some(Seq::new(items.len(), |i: int| item_plan(items[i])->Some_0))
    } else {
        None
    }
}

/// The names of an array, where every entry gives one.
pub open spec fn name_items(items: Seq<JsonModel>) -> Option<Seq<Seq<char>>> {
    if forall|i: int| 0 <= i < items.len() ==> item_name(#[trigger] items[i]) is Some {
        Some(Seq::new(items.len(), |i: int| item_name(items[i])->Some_0))
    } else {
        None
    }
}

/// A list of courses: an array whose entries each name a course.
pub open spec fn courses_param(params: Seq<ParamModel>, name: Seq<char>) -> Option<
    Seq<(Seq<char>, Seq<char>)>,
> {
    match param(params, name) {
        Some(p) => match p.value {
            Some(JsonModel::Arr(items)) => course_items(items),
            _ => None,
        },
        None => None,
    }
}

/// A list of plans: an array whose entries each name a plan.
pub open spec fn plans_param(params: Seq<ParamModel>, name: Seq<char>) -> Option<Seq<Seq<char>>> {
    match param(params, name) {
        Some(p) => match p.value {
            Some(JsonModel::Arr(items)) => plan_items(items),
            _ => None,
        },
        None => None,
    }
}

/// One plan or program: a string, or an object with a member `code`.
pub open spec fn plan_param(params: Seq<ParamModel>, name: Seq<char>) -> Option<Seq<char>> {
    match param(params, name) {
        Some(p) => match p.value {
            Some(JsonModel::Str(s)) => Some(s),
            Some(v) => text_field(v, "code"@),
            None => None,
        },
        None => None,
    }
}

/// The names of course lists: one string, or an array whose entries each
/// give a name.
pub open spec fn lists_param(params: Seq<ParamModel>, name: Seq<char>) -> Option<Seq<Seq<char>>> {
    match param(params, name) {
        Some(p) => match p.value {
            Some(JsonModel::Str(s)) => Some(seq![s]),
            Some(JsonModel::Arr(items)) => name_items(items),
            _ => None,
        },
        None => None,
    }
}

/// The first parameter whose name is `name` up to the case of letters.
pub fn find_param<'a>(params: &'a Vec<Param>, name: &str) -> (r: Option<&'a Param>)
    ensures
        match r {
            Some(p) => param(param_models(params@), name@) == Some(p@),
            None => param(param_models(params@), name@) is None,
        },
{
    let ghost pm = param_models(params@);
    let mut i: usize = 0;
    while i < params.len()
        invariant
            i <= params.len(),
            pm == param_models(params@),
            param_from(pm, name@, 0) == param_from(pm, name@, i as int),
        decreases params.len() - i,
    {
        if same_text_ignoring_case(params[i].name.as_str(), name) {
            return Some(&params[i]);
        }
        i = i + 1;
    }
    None
}

/// Reads a count of units or a level.
pub fn read_units(params: &Vec<Param>, name: &str) -> (r: Option<Units>)
    ensures
        r == units_param(param_models(params@), name@),
{
    match find_param(params, name) {
        Some(p) => match &p.value {
            Some(JsonValue::Int(v)) => {
                if 0 <= *v && *v <= 65535 {
                    Some(*v as u16)
                } else {
                    None
                }
            },
            _ => None,
        },
        None => None,
    }
}

/// Reads a value as a yes or no, where `yes` and `no` are the words for the
/// two.
pub fn read_flag(value: &Option<JsonValue>, yes: &str, no: &str) -> (r: Option<bool>)
    ensures
        r == flag_of(
            match *value {
                Some(v) => Some(v@),
                None => None,
            },
            yes@,
            no@,
        ),
{
    match value {
        None => Some(false),
        Some(JsonValue::Null) => Some(false),
        Some(JsonValue::Bool(b)) => Some(*b),
        Some(JsonValue::Int(v)) => {
            if *v == 1 {
                Some(true)
            } else if *v == 0 {
                Some(false)
            } else {
                None
            }
        },
        Some(JsonValue::Str(s)) => {
            if same_text_ignoring_case(s.as_str(), "true") || same_text_ignoring_case(
                s.as_str(),
                yes,
            ) {
                Some(true)
            } else if same_text_ignoring_case(s.as_str(), "false") || same_text_ignoring_case(
                s.as_str(),
                no,
            ) || s.as_str().unicode_len() == 0 {
                Some(false)
            } else {
                None
            }
        },
        _ => None,
    }
}

/// Reads the parameter that says whether higher levels count too.
pub fn read_or_higher(params: &Vec<Param>) -> (r: Option<bool>)
    ensures
        r == or_higher_param(param_models(params@)),
{
    match find_param(params, "or_higher") {
        Some(p) => read_flag(&p.value, "or higher", "no"),
        None => None,
    }
}

/// Reads the parameter that says whether a substitution is required.
pub fn read_must(params: &Vec<Param>) -> (r: Option<bool>)
    ensures
        r == must_param(param_models(params@)),
{
    match find_param(params, "must") {
        Some(p) => read_flag(&p.value, "must", "may"),
        None => match find_param(params, "must/may") {
            Some(p) => read_flag(&p.value, "must", "may"),
            None => None,
        },
    }
}

/// Reads the courses of an array, where every entry names one.
pub fn read_course_items(items: &Vec<JsonValue>) -> (r: Option<Vec<CourseCode>>)
    ensures
        match r {
            Some(list) => course_items(models(items@, items@.len() as int)) == Some(codes(list@)),
            None => course_items(models(items@, items@.len() as int)) is None,
        },
{
    let ghost ms = models(items@, items@.len() as int);
    proof {
        lemma_models(items@, items@.len() as int);
    }
    let mut out: Vec<CourseCode> = Vec::new();
    let mut i: usize = 0;
    while i < items.len()
        invariant
            i <= items.len(),
            ms == models(items@, items@.len() as int),
            ms.len() == items@.len(),
            forall|j: int| 0 <= j < items@.len() ==> #[trigger] ms[j] == model(items@[j]),
            out@.len() == i,
            forall|j: int| 0 <= j < i ==> item_course(#[trigger] ms[j]) == Some(out@[j]@),
        decreases items.len() - i,
    {
        assert(ms[i as int] == items@[i as int]@);
        match items[i].get_str("code") {
            Some(s) => match parse_course_code(s.as_str()) {
                Ok(code) => {
                    out.push(code);
                },
                Err(_) => {
                    assert(item_course(ms[i as int]) is None);
                    return None;
                },
            },
            None => {
                assert(item_course(ms[i as int]) is None);
                return None;
            },
        }
        i = i + 1;
    }
    assert(codes(out@) =~= Seq::new(ms.len(), |i: int| item_course(ms[i])->Some_0));
    Some(out)
}

/// Reads the plans of an array, where every entry names one.
pub fn read_plan_items(items: &Vec<JsonValue>) -> (r: Option<Vec<ProgramCode>>)
    ensures
        match r {
            Some(list) => plan_items(models(items@, items@.len() as int)) == Some(plans(list@)),
            None => plan_items(models(items@, items@.len() as int)) is None,
        },
{
    let ghost ms = models(items@, items@.len() as int);
    proof {
        lemma_models(items@, items@.len() as int);
    }
    let mut out: Vec<ProgramCode> = Vec::new();
    let mut i: usize = 0;
    while i < items.len()
        invariant
            i <= items.len(),
            ms == models(items@, items@.len() as int),
            ms.len() == items@.len(),
            forall|j: int| 0 <= j < items@.len() ==> #[trigger] ms[j] == model(items@[j]),
            out@.len() == i,
            forall|j: int| 0 <= j < i ==> item_plan(#[trigger] ms[j]) == Some(out@[j]@),
        decreases items.len() - i,
    {
        assert(ms[i as int] == items@[i as int]@);
        match items[i].get_str("code") {
            Some(s) => {
                out.push(ProgramCode { code: s });
            },
            None => {
                assert(item_plan(ms[i as int]) is None);
                return None;
            },
        }
        i = i + 1;
    }
    assert(plans(out@) =~= Seq::new(ms.len(), |i: int| item_plan(ms[i])->Some_0));
    Some(out)
}

/// Reads the names of an array, where every entry gives one.
pub fn read_name_items(items: &Vec<JsonValue>) -> (r: Option<Vec<String>>)
    ensures
        match r {
            Some(list) => name_items(models(items@, items@.len() as int)) == Some(texts(list@)),
            None => name_items(models(items@, items@.len() as int)) is None,
        },
{
    let ghost ms = models(items@, items@.len() as int);
    proof {
        lemma_models(items@, items@.len() as int);
    }
    let mut out: Vec<String> = Vec::new();
    let mut i: usize = 0;
    while i < items.len()
        invariant
            i <= items.len(),
            ms == models(items@, items@.len() as int),
            ms.len() == items@.len(),
            forall|j: int| 0 <= j < items@.len() ==> #[trigger] ms[j] == model(items@[j]),
            out@.len() == i,
            forall|j: int| 0 <= j < i ==> item_name(#[trigger] ms[j]) == Some(out@[j]@),
        decreases items.len() - i,
    {
        assert(ms[i as int] == items@[i as int]@);
        let name = match &items[i] {
            JsonValue::Str(s) => Some(s.clone()),
            other => other.get_str("name"),
        };
        match name {
            Some(s) => {
                out.push(s);
            },
            None => {
                assert(item_name(ms[i as int]) is None);
                return None;
            },
        }
        i = i + 1;
    }
    assert(texts(out@) =~= Seq::new(ms.len(), |i: int| item_name(ms[i])->Some_0));
    Some(out)
}

/// Reads a list of courses.
pub fn read_courses(params: &Vec<Param>, name: &str) -> (r: Option<Vec<CourseCode>>)
    ensures
        match r {
            Some(list) => courses_param(param_models(params@), name@) == Some(codes(list@)),
            None => courses_param(param_models(params@), name@) is None,
        },
{
    match find_param(params, name) {
        Some(p) => match &p.value {
            Some(JsonValue::Arr(items)) => read_course_items(items),
            _ => None,
        },
        None => None,
    }
}

/// Reads a list of plans.
pub fn read_plans(params: &Vec<Param>, name: &str) -> (r: Option<Vec<ProgramCode>>)
    ensures
        match r {
            Some(list) => plans_param(param_models(params@), name@) == Some(plans(list@)),
            None => plans_param(param_models(params@), name@) is None,
        },
{
    match find_param(params, name) {
        Some(p) => match &p.value {
            Some(JsonValue::Arr(items)) => read_plan_items(items),
            _ => None,
        },
        None => None,
    }
}

/// Reads one plan or program.
pub fn read_plan(params: &Vec<Param>, name: &str) -> (r: Option<ProgramCode>)
    ensures
        match r {
            Some(plan) => plan_param(param_models(params@), name@) == Some(plan@),
            None => plan_param(param_models(params@), name@) is None,
        },
{
    match find_param(params, name) {
        Some(p) => match &p.value {
            Some(JsonValue::Str(s)) => Some(ProgramCode { code: s.clone() }),
            Some(v) => match v.get_str("code") {
                Some(s) => Some(ProgramCode { code: s }),
                None => None,
            },
            None => None,
        },
        None => None,
    }
}

/// Reads the names of course lists.
pub fn read_lists(params: &Vec<Param>, name: &str) -> (r: Option<Vec<String>>)
    ensures
        match r {
            Some(list) => lists_param(param_models(params@), name@) == Some(texts(list@)),
            None => lists_param(param_models(params@), name@) is None,
        },
{
    match find_param(params, name) {
        Some(p) => match &p.value {
            Some(JsonValue::Str(s)) => {
                let mut out: Vec<String> = Vec::new();
                out.push(s.clone());
                assert(texts(out@) =~= seq![s@]);
                Some(out)
            },
            Some(JsonValue::Arr(items)) => read_name_items(items),
            _ => None,
        },
        None => None,
    }
}

/// The fallback form: text and parameters as they came.
pub open spec fn unknown_model(text: Seq<char>, params: Seq<ParamModel>) -> RuleModel {
    RuleModel::ArUnknown { text, raw_params: params }
}

/// The rule on units at a level that `code` and the parameters describe, if
/// the code is of that family.
pub open spec fn level_rule_model(code: Seq<char>, params: Seq<ParamModel>) -> Option<RuleModel> {
    let n = units_param(params, "n"@);
    let m = units_param(params, "m"@);
    let level = units_param(params, "level"@);
    let or_higher = or_higher_param(params);
    if code == "AR1"@ {
        if n is Some && level is Some && or_higher is Some {
            Some(
                RuleModel::Ar1 {
                    n: n->Some_0,
                    spec: LevelSpec { level: level->Some_0, or_higher: or_higher->Some_0 },
                },
            )
        } else {
            None
        }
    } else if code == "AR2"@ {
        if n is Some && level is Some {
            Some(RuleModel::Ar2 { n: n->Some_0, level: level->Some_0 })
        } else {
            None
        }
    } else if code == "AR3"@ {
        if n is Some && level is Some && or_higher is Some {
            Some(
                RuleModel::Ar3 {
                    n: n->Some_0,
                    spec: LevelSpec { level: level->Some_0, or_higher: or_higher->Some_0 },
                },
            )
        } else {
            None
        }
    } else if code == "AR4"@ {
        if n is Some && m is Some && level is Some && or_higher is Some {
            Some(
                RuleModel::Ar4 {
                    n: n->Some_0,
                    m: m->Some_0,
                    spec: LevelSpec { level: level->Some_0, or_higher: or_higher->Some_0 },
                },
            )
        } else {
            None
        }
    } else if code == "AR7"@ {
        if n is Some {
            Some(RuleModel::Ar7 { n: n->Some_0 })
        } else {
            None
        }
    } else {
        None
    }
}

/// The rule on plans and credit that `code` and the parameters describe, if
/// the code is of that family.
pub open spec fn plan_rule_model(code: Seq<char>, params: Seq<ParamModel>) -> Option<RuleModel> {
    let course_list = courses_param(params, "course_list"@);
    let plan_list = plans_param(params, "plan_list"@);
    let plan_list_1 = plans_param(params, "plan_list_1"@);
    let plan_list_2 = plans_param(params, "plan_list_2"@);
    if code == "AR5"@ {
        if plan_list_1 is Some && plan_list_2 is Some {
            Some(RuleModel::Ar5 { plan_list_1: plan_list_1->Some_0, plan_list_2: plan_list_2->Some_0 })
        } else {
            None
        }
    } else if code == "AR6"@ {
        if plan_list_1 is Some && plan_list_2 is Some {
            Some(RuleModel::Ar6 { plan_list_1: plan_list_1->Some_0, plan_list_2: plan_list_2->Some_0 })
        } else {
            None
        }
    } else if code == "AR9"@ {
        if course_list is Some {
            Some(RuleModel::Ar9 { course_list: course_list->Some_0 })
        } else {
            None
        }
    } else if code == "AR10"@ {
        if course_list is Some && plan_list is Some {
            Some(RuleModel::Ar10 { course_list: course_list->Some_0, plan_list: plan_list->Some_0 })
        } else {
            None
        }
    } else if code == "AR11"@ {
        if course_list is Some && plan_list is Some {
            Some(RuleModel::Ar11 { course_list: course_list->Some_0, plan_list: plan_list->Some_0 })
        } else {
            None
        }
    } else {
        None
    }
}

/// The rule on exemptions and substitutions that `code` and the parameters
/// describe, if the code is of that family.
pub open spec fn substitution_rule_model(code: Seq<char>, params: Seq<ParamModel>) -> Option<
    RuleModel,
> {
    let course_list = courses_param(params, "course_list"@);
    let course_list_1 = courses_param(params, "course_list_1"@);
    let course_list_2 = courses_param(params, "course_list_2"@);
    let plan_list = plans_param(params, "plan_list"@);
    let program_plan_list = plans_param(params, "program_plan_list"@);
    let must = must_param(params);
    let lists = lists_param(params, "lists"@);
    if code == "AR13"@ {
        if plan_list is Some && course_list is Some && program_plan_list is Some {
            Some(
                RuleModel::Ar13 {
                    plan_list: plan_list->Some_0,
                    course_list: course_list->Some_0,
                    program_plan_list: program_plan_list->Some_0,
                },
            )
        } else {
            None
        }
    } else if code == "AR15"@ {
        if course_list is Some && must is Some && program_plan_list is Some && lists is Some {
            Some(
                RuleModel::Ar15 {
                    course_list: course_list->Some_0,
                    must: must->Some_0,
                    program_plan_list: program_plan_list->Some_0,
                    lists: lists->Some_0,
                },
            )
        } else {
            None
        }
    } else if code == "AR16"@ {
        if plan_list is Some && course_list_1 is Some && must is Some && course_list_2 is Some
            && program_plan_list is Some {
            Some(
                RuleModel::Ar16 {
                    plan_list: plan_list->Some_0,
                    course_list_1: course_list_1->Some_0,
                    must: must->Some_0,
                    course_list_2: course_list_2->Some_0,
                    program_plan_list: program_plan_list->Some_0,
                },
            )
        } else {
            None
        }
    } else if code == "AR17"@ {
        if plan_list is Some && course_list is Some && must is Some && program_plan_list is Some
            && lists is Some {
            Some(
                RuleModel::Ar17 {
                    plan_list: plan_list->Some_0,
                    course_list: course_list->Some_0,
                    must: must->Some_0,
                    program_plan_list: program_plan_list->Some_0,
                    lists: lists->Some_0,
                },
            )
        } else {
            None
        }
    } else {
        None
    }
}

/// The rule on dual programs that `code` and the parameters describe, if the
/// code is of that family.
pub open spec fn dual_rule_model(code: Seq<char>, params: Seq<ParamModel>) -> Option<RuleModel> {
    let course_list = courses_param(params, "course_list"@);
    let plan_list = plans_param(params, "plan_list"@);
    let plan_list_1 = plans_param(params, "plan_list_1"@);
    let plan_list_2 = plans_param(params, "plan_list_2"@);
    let program = plan_param(params, "program"@);
    let plan_1 = plan_param(params, "plan_1"@);
    if code == "AR18"@ {
        if course_list is Some && program is Some {
            Some(RuleModel::Ar18 { course_list: course_list->Some_0, program: program->Some_0 })
        } else {
            None
        }
    } else if code == "AR19"@ {
        if plan_list is Some && course_list is Some && program is Some {
            Some(
                RuleModel::Ar19 {
                    plan_list: plan_list->Some_0,
                    course_list: course_list->Some_0,
                    program: program->Some_0,
                },
            )
        } else {
            None
        }
    } else if code == "AR20"@ {
        if plan_1 is Some && plan_list_1 is Some && course_list is Some && plan_list_2 is Some {
            Some(
                RuleModel::Ar20 {
                    plan_1: plan_1->Some_0,
                    plan_list_1: plan_list_1->Some_0,
                    course_list: course_list->Some_0,
                    plan_list_2: plan_list_2->Some_0,
                },
            )
        } else {
            None
        }
    } else {
        None
    }
}

/// The typed rule that a code and its parameters describe: the form of the
/// code where the code is known and every parameter that the form needs is
/// there with the right type; the fallback form otherwise.
pub open spec fn classify_model(
    code: Seq<char>,
    text: Seq<char>,
    params: Seq<ParamModel>,
) -> RuleModel {
    if level_rule_model(code, params) is Some {
        level_rule_model(code, params)->Some_0
    } else if plan_rule_model(code, params) is Some {
        plan_rule_model(code, params)->Some_0
    } else if substitution_rule_model(code, params) is Some {
        substitution_rule_model(code, params)->Some_0
    } else if dual_rule_model(code, params) is Some {
        dual_rule_model(code, params)->Some_0
    } else {
        unknown_model(text, params)
    }
}

/// Builds the rule on units at a level that `code` and the parameters
/// describe.
pub fn build_level_rule(code: &str, params: &Vec<Param>) -> (r: Option<AuxiliaryRuleKind>)
    ensures
        match r {
            Some(rule) => level_rule_model(code@, param_models(params@)) == Some(rule@),
            None => level_rule_model(code@, param_models(params@)) is None,
        },
{
    if same_text(code, "AR1") {
        match (read_units(params, "n"), read_units(params, "level"), read_or_higher(params)) {
            (Some(n), Some(level), Some(or_higher)) => Some(
                AuxiliaryRuleKind::Ar1 { n, spec: LevelSpec { level, or_higher } },
            ),
            _ => None,
        }
    } else if same_text(code, "AR2") {
        match (read_units(params, "n"), read_units(params, "level")) {
            (Some(n), Some(level)) => Some(AuxiliaryRuleKind::Ar2 { n, level }),
            _ => None,
        }
    } else if same_text(code, "AR3") {
        match (read_units(params, "n"), read_units(params, "level"), read_or_higher(params)) {
            (Some(n), Some(level), Some(or_higher)) => Some(
                AuxiliaryRuleKind::Ar3 { n, spec: LevelSpec { level, or_higher } },
            ),
            _ => None,
        }
    } else if same_text(code, "AR4") {
        match (
            read_units(params, "n"),
            read_units(params, "m"),
            read_units(params, "level"),
            read_or_higher(params),
        ) {
            (Some(n), Some(m), Some(level), Some(or_higher)) => Some(
                AuxiliaryRuleKind::Ar4 { n, m, spec: LevelSpec { level, or_higher } },
            ),
            _ => None,
        }
    } else if same_text(code, "AR7") {
        match read_units(params, "n") {
            Some(n) => Some(AuxiliaryRuleKind::Ar7 { n }),
            None => None,
        }
    } else {
        None
    }
}

/// Builds the rule on plans and credit that `code` and the parameters
/// describe.
pub fn build_plan_rule(code: &str, params: &Vec<Param>) -> (r: Option<AuxiliaryRuleKind>)
    ensures
        match r {
            Some(rule) => plan_rule_model(code@, param_models(params@)) == Some(rule@),
            None => plan_rule_model(code@, param_models(params@)) is None,
        },
{
    if same_text(code, "AR5") {
        match (read_plans(params, "plan_list_1"), read_plans(params, "plan_list_2")) {
            (Some(plan_list_1), Some(plan_list_2)) => Some(
                AuxiliaryRuleKind::Ar5 { plan_list_1, plan_list_2 },
            ),
            _ => None,
        }
    } else if same_text(code, "AR6") {
        match (read_plans(params, "plan_list_1"), read_plans(params, "plan_list_2")) {
            (Some(plan_list_1), Some(plan_list_2)) => Some(
                AuxiliaryRuleKind::Ar6 { plan_list_1, plan_list_2 },
            ),
            _ => None,
        }
    } else if same_text(code, "AR9") {
        match read_courses(params, "course_list") {
            Some(course_list) => Some(AuxiliaryRuleKind::Ar9 { course_list }),
            None => None,
        }
    } else if same_text(code, "AR10") {
        match (read_courses(params, "course_list"), read_plans(params, "plan_list")) {
            (Some(course_list), Some(plan_list)) => Some(
                AuxiliaryRuleKind::Ar10 { course_list, plan_list },
            ),
            _ => None,
        }
    } else if same_text(code, "AR11") {
        match (read_courses(params, "course_list"), read_plans(params, "plan_list")) {
            (Some(course_list), Some(plan_list)) => Some(
                AuxiliaryRuleKind::Ar11 { course_list, plan_list },
            ),
            _ => None,
        }
    } else {
        None
    }
}

/// Builds the rule on exemptions and substitutions that `code` and the
/// parameters describe.
pub fn build_substitution_rule(code: &str, params: &Vec<Param>) -> (r: Option<AuxiliaryRuleKind>)
    ensures
        match r {
            Some(rule) => substitution_rule_model(code@, param_models(params@)) == Some(rule@),
            None => substitution_rule_model(code@, param_models(params@)) is None,
        },
{
    if same_text(code, "AR13") {
        match (
            read_plans(params, "plan_list"),
            read_courses(params, "course_list"),
            read_plans(params, "program_plan_list"),
        ) {
            (Some(plan_list), Some(course_list), Some(program_plan_list)) => Some(
                AuxiliaryRuleKind::Ar13 { plan_list, course_list, program_plan_list },
            ),
            _ => None,
        }
    } else if same_text(code, "AR15") {
        match (
            read_courses(params, "course_list"),
            read_must(params),
            read_plans(params, "program_plan_list"),
            read_lists(params, "lists"),
        ) {
            (Some(course_list), Some(must), Some(program_plan_list), Some(lists)) => Some(
                AuxiliaryRuleKind::Ar15 { course_list, must, program_plan_list, lists },
            ),
            _ => None,
        }
    } else if same_text(code, "AR16") {
        match (
            read_plans(params, "plan_list"),
            read_courses(params, "course_list_1"),
            read_must(params),
            read_courses(params, "course_list_2"),
            read_plans(params, "program_plan_list"),
        ) {
            (
                Some(plan_list),
                Some(course_list_1),
                Some(must),
                Some(course_list_2),
                Some(program_plan_list),
            ) => Some(
                AuxiliaryRuleKind::Ar16 {
                    plan_list,
                    course_list_1,
                    must,
                    course_list_2,
                    program_plan_list,
                },
            ),
            _ => None,
        }
    } else if same_text(code, "AR17") {
        match (
            read_plans(params, "plan_list"),
            read_courses(params, "course_list"),
            read_must(params),
            read_plans(params, "program_plan_list"),
            read_lists(params, "lists"),
        ) {
            (
                Some(plan_list),
                Some(course_list),
                Some(must),
                Some(program_plan_list),
                Some(lists),
            ) => Some(
                AuxiliaryRuleKind::Ar17 { plan_list, course_list, must, program_plan_list, lists },
            ),
            _ => None,
        }
    } else {
        None
    }
}

/// Builds the rule on dual programs that `code` and the parameters describe.
pub fn build_dual_rule(code: &str, params: &Vec<Param>) -> (r: Option<AuxiliaryRuleKind>)
    ensures
        match r {
            Some(rule) => dual_rule_model(code@, param_models(params@)) == Some(rule@),
            None => dual_rule_model(code@, param_models(params@)) is None,
        },
{
    if same_text(code, "AR18") {
        match (read_courses(params, "course_list"), read_plan(params, "program")) {
            (Some(course_list), Some(program)) => Some(
                AuxiliaryRuleKind::Ar18 { course_list, program },
            ),
            _ => None,
        }
    } else if same_text(code, "AR19") {
        match (
            read_plans(params, "plan_list"),
            read_courses(params, "course_list"),
            read_plan(params, "program"),
        ) {
            (Some(plan_list), Some(course_list), Some(program)) => Some(
                AuxiliaryRuleKind::Ar19 { plan_list, course_list, program },
            ),
            _ => None,
        }
    } else if same_text(code, "AR20") {
        match (
            read_plan(params, "plan_1"),
            read_plans(params, "plan_list_1"),
            read_courses(params, "course_list"),
            read_plans(params, "plan_list_2"),
        ) {
            (Some(plan_1), Some(plan_list_1), Some(course_list), Some(plan_list_2)) => Some(
                AuxiliaryRuleKind::Ar20 { plan_1, plan_list_1, course_list, plan_list_2 },
            ),
            _ => None,
        }
    } else {
        None
    }
}

/// Builds the typed rule that a code and its parameters describe. It never
/// fails: what cannot be read as a known form becomes the fallback form,
/// which keeps `text` and `params` as they came.
pub fn classify_rule(code: &str, text: String, params: Vec<Param>) -> (r: AuxiliaryRuleKind)
    ensures
        r@ == classify_model(code@, text@, param_models(params@)),
        r is ArUnknown ==> r == (AuxiliaryRuleKind::ArUnknown { text, raw_params: params }),
{
    match build_level_rule(code, &params) {
        Some(rule) => {
            return rule;
        },
        None => {},
    }
    match build_plan_rule(code, &params) {
        Some(rule) => {
            return rule;
        },
        None => {},
    }
    match build_substitution_rule(code, &params) {
        Some(rule) => {
            return rule;
        },
        None => {},
    }
    match build_dual_rule(code, &params) {
        Some(rule) => {
            return rule;
        },
        None => {},
    }
    AuxiliaryRuleKind::ArUnknown { text, raw_params: params }
}

} // verus!
