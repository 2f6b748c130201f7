//! The closed vocabulary of auxiliary rules.
use crate::ident::{CourseCode, Level, ProgramCode, Units};
use crate::json::{param_models, Param, ParamModel};
use crate::part::PartLabel;
use vstd::prelude::*;

verus! {

/// "At level `level`", or "at level `level` or higher".
#[derive(Debug, Clone, Copy, PartialEq, Eq, Structural)]
pub struct LevelSpec {
    pub level: Level,
    pub or_higher: bool,
}

/// One rule form with the parameters that it needs.
#[derive(Debug, PartialEq, Eq)]
pub enum AuxiliaryRuleKind {
    /// At least `n` units at the level.
    Ar1 { n: Units, spec: LevelSpec },
    /// At most `n` units at exactly `level`.
    Ar2 { n: Units, level: Level },
    /// Exactly `n` units at the level.
    Ar3 { n: Units, spec: LevelSpec },
    /// Between `n` and `m` units, both included, at the level.
    Ar4 { n: Units, m: Units, spec: LevelSpec },
    /// A plan of the first list only together with a plan of the second.
    Ar5 { plan_list_1: Vec<ProgramCode>, plan_list_2: Vec<ProgramCode> },
    /// A plan of the first list never together with a plan of the second.
    Ar6 { plan_list_1: Vec<ProgramCode>, plan_list_2: Vec<ProgramCode> },
    /// No more than `n` units from one discipline.
    Ar7 { n: Units },
    /// No credit for the listed courses.
    Ar9 { course_list: Vec<CourseCode> },
    /// No credit for the listed courses for students in a listed plan.
    Ar10 { course_list: Vec<CourseCode>, plan_list: Vec<ProgramCode> },
    /// No credit for the listed courses unless the student is in a listed plan.
    Ar11 { course_list: Vec<CourseCode>, plan_list: Vec<ProgramCode> },
    /// Students in a listed plan are exempt from the listed courses.
    Ar13 {
        plan_list: Vec<ProgramCode>,
        course_list: Vec<CourseCode>,
        program_plan_list: Vec<ProgramCode>,
    },
    /// The listed courses must or may be replaced by a course from named lists.
    Ar15 {
        course_list: Vec<CourseCode>,
        must: bool,
        program_plan_list: Vec<ProgramCode>,
        lists: Vec<String>,
    },
    /// For students in a listed plan, the first courses must or may be
    /// replaced by the second.
    Ar16 {
        plan_list: Vec<ProgramCode>,
        course_list_1: Vec<CourseCode>,
        must: bool,
        course_list_2: Vec<CourseCode>,
        program_plan_list: Vec<ProgramCode>,
    },
    /// For students in a listed plan, the listed courses must or may be
    /// replaced by a course from named lists.
    Ar17 {
        plan_list: Vec<ProgramCode>,
        course_list: Vec<CourseCode>,
        must: bool,
        program_plan_list: Vec<ProgramCode>,
        lists: Vec<String>,
    },
    /// The listed courses count only towards one program of a dual.
    Ar18 { course_list: Vec<CourseCode>, program: ProgramCode },
    /// For students in a listed plan, the listed courses count only towards
    /// one program.
    Ar19 { plan_list: Vec<ProgramCode>, course_list: Vec<CourseCode>, program: ProgramCode },
    /// For students in `plan_1` and a plan of the first list, the listed
    /// courses count only towards the plans of the second list.
    Ar20 {
        plan_1: ProgramCode,
        plan_list_1: Vec<ProgramCode>,
        course_list: Vec<CourseCode>,
        plan_list_2: Vec<ProgramCode>,
    },
    /// Anything not recognised, kept as it came for a person to look at.
    ArUnknown { text: String, raw_params: Vec<Param> },
}

/// A rule together with the tree position it is attached to, where the
/// document names one.
#[derive(Debug, PartialEq, Eq)]
pub struct AuxiliaryRule {
    pub part: Option<PartLabel>,
    pub rule: AuxiliaryRuleKind,
}

/// What a rule holds: the rule with each list as the sequence of what its
/// entries hold.
pub enum RuleModel {
    Ar1 { n: Units, spec: LevelSpec },
    Ar2 { n: Units, level: Level },
    Ar3 { n: Units, spec: LevelSpec },
    Ar4 { n: Units, m: Units, spec: LevelSpec },
    Ar5 { plan_list_1: Seq<Seq<char>>, plan_list_2: Seq<Seq<char>> },
    Ar6 { plan_list_1: Seq<Seq<char>>, plan_list_2: Seq<Seq<char>> },
    Ar7 { n: Units },
    Ar9 { course_list: Seq<(Seq<char>, Seq<char>)> },
    Ar10 { course_list: Seq<(Seq<char>, Seq<char>)>, plan_list: Seq<Seq<char>> },
    Ar11 { course_list: Seq<(Seq<char>, Seq<char>)>, plan_list: Seq<Seq<char>> },
    Ar13 {
        plan_list: Seq<Seq<char>>,
        course_list: Seq<(Seq<char>, Seq<char>)>,
        program_plan_list: Seq<Seq<char>>,
    },
    Ar15 {
        course_list: Seq<(Seq<char>, Seq<char>)>,
        must: bool,
        program_plan_list: Seq<Seq<char>>,
        lists: Seq<Seq<char>>,
    },
    Ar16 {
        plan_list: Seq<Seq<char>>,
        course_list_1: Seq<(Seq<char>, Seq<char>)>,
        must: bool,
        course_list_2: Seq<(Seq<char>, Seq<char>)>,
        program_plan_list: Seq<Seq<char>>,
    },
    Ar17 {
        plan_list: Seq<Seq<char>>,
        course_list: Seq<(Seq<char>, Seq<char>)>,
        must: bool,
        program_plan_list: Seq<Seq<char>>,
        lists: Seq<Seq<char>>,
    },
    Ar18 { course_list: Seq<(Seq<char>, Seq<char>)>, program: Seq<char> },
    Ar19 {
        plan_list: Seq<Seq<char>>,
        course_list: Seq<(Seq<char>, Seq<char>)>,
        program: Seq<char>,
    },
    Ar20 {
        plan_1: Seq<char>,
        plan_list_1: Seq<Seq<char>>,
        course_list: Seq<(Seq<char>, Seq<char>)>,
        plan_list_2: Seq<Seq<char>>,
    },
    ArUnknown { text: Seq<char>, raw_params: Seq<ParamModel> },
}

/// What each course code of a list holds.
pub open spec fn codes(list: Seq<CourseCode>) -> Seq<(Seq<char>, Seq<char>)> {
    Seq::new(list.len(), |i: int| list[i]@)
}

/// What each program code of a list holds.
pub open spec fn plans(list: Seq<ProgramCode>) -> Seq<Seq<char>> {
    Seq::new(list.len(), |i: int| list[i]@)
}

/// What each string of a list holds.
pub open spec fn texts(list: Seq<String>) -> Seq<Seq<char>> {
    Seq::new(list.len(), |i: int| list[i]@)
}

impl View for AuxiliaryRuleKind {
    type V = RuleModel;

    open spec fn view(&self) -> RuleModel {
        match *self {
            AuxiliaryRuleKind::Ar1 { n, spec } => RuleModel::Ar1 { n, spec },
            AuxiliaryRuleKind::Ar2 { n, level } => RuleModel::Ar2 { n, level },
            AuxiliaryRuleKind::Ar3 { n, spec } => RuleModel::Ar3 { n, spec },
            AuxiliaryRuleKind::Ar4 { n, m, spec } => RuleModel::Ar4 { n, m, spec },
            AuxiliaryRuleKind::Ar5 { plan_list_1, plan_list_2 } => RuleModel::Ar5 {
                plan_list_1: plans(plan_list_1@),
                plan_list_2: plans(plan_list_2@),
            },
            AuxiliaryRuleKind::Ar6 { plan_list_1, plan_list_2 } => RuleModel::Ar6 {
                plan_list_1: plans(plan_list_1@),
                plan_list_2: plans(plan_list_2@),
            },
            AuxiliaryRuleKind::Ar7 { n } => RuleModel::Ar7 { n },
            AuxiliaryRuleKind::Ar9 { course_list } => RuleModel::Ar9 {
                course_list: codes(course_list@),
            },
            AuxiliaryRuleKind::Ar10 { course_list, plan_list } => RuleModel::Ar10 {
                course_list: codes(course_list@),
                plan_list: plans(plan_list@),
            },
            AuxiliaryRuleKind::Ar11 { course_list, plan_list } => RuleModel::Ar11 {
                course_list: codes(course_list@),
                plan_list: plans(plan_list@),
            },
            AuxiliaryRuleKind::Ar13 { plan_list, course_list, program_plan_list } =>
                RuleModel::Ar13 {
                    plan_list: plans(plan_list@),
                    course_list: codes(course_list@),
                    program_plan_list: plans(program_plan_list@),
                },
            AuxiliaryRuleKind::Ar15 { course_list, must, program_plan_list, lists } =>
                RuleModel::Ar15 {
                    course_list: codes(course_list@),
                    must,
                    program_plan_list: plans(program_plan_list@),
                    lists: texts(lists@),
                },
            AuxiliaryRuleKind::Ar16 {
                plan_list,
                course_list_1,
                must,
                course_list_2,
                program_plan_list,
            } => RuleModel::Ar16 {
                plan_list: plans(plan_list@),
                course_list_1: codes(course_list_1@),
                must,
                course_list_2: codes(course_list_2@),
                program_plan_list: plans(program_plan_list@),
            },
            AuxiliaryRuleKind::Ar17 { plan_list, course_list, must, program_plan_list, lists } =>
                RuleModel::Ar17 {
                    plan_list: plans(plan_list@),
                    course_list: codes(course_list@),
                    must,
                    program_plan_list: plans(program_plan_list@),
                    lists: texts(lists@),
                },
            AuxiliaryRuleKind::Ar18 { course_list, program } => RuleModel::Ar18 {
                course_list: codes(course_list@),
                program: program@,
            },
            AuxiliaryRuleKind::Ar19 { plan_list, course_list, program } => RuleModel::Ar19 {
                plan_list: plans(plan_list@),
                course_list: codes(course_list@),
                program: program@,
            },
            AuxiliaryRuleKind::Ar20 { plan_1, plan_list_1, course_list, plan_list_2 } =>
                RuleModel::Ar20 {
                    plan_1: plan_1@,
                    plan_list_1: plans(plan_list_1@),
                    course_list: codes(course_list@),
                    plan_list_2: plans(plan_list_2@),
                },
            AuxiliaryRuleKind::ArUnknown { text, raw_params } => RuleModel::ArUnknown {
                text: text@,
                raw_params: param_models(raw_params@),
            },
        }
    }
}

} // verus!
