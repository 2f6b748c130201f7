//! Catalog entries as a course file gives them, and the words it uses for
//! semesters, levels and attendance modes.
use crate::json::{
    field, int_field, items_field, lemma_models, model, models, text_field, JsonModel,
    JsonValue,
};
use crate::text::same_text;
use vstd::prelude::*;

verus! {

/// When a course is offered.
#[derive(Debug, Clone, Copy, PartialEq, Eq, Structural)]
pub enum CourseSemester {
    Rq1,
    Rq2,
    Rq3,
    Rq4,
    Sfc,
    Sem1,
    Sem2,
    Sems,
    Trim1,
    Trim2,
    Trim3,
    College1,
    College2,
    Other,
}

/// The career that a course belongs to.
#[derive(Debug, Clone, Copy, PartialEq, Eq, Structural)]
pub enum CourseLevel {
    Undergraduate,
    Postgraduate,
    PostgraduateCoursework,
    UqCollege,
    NonAward,
    Other,
}

/// How a course is attended.
#[derive(Debug, Clone, Copy, PartialEq, Eq, Structural)]
pub enum CourseMode {
    WorkExperience,
    InPerson,
    External,
    Internal,
    Weekend,
    JulyIntensive,
    OffShore,
    OffCampus,
    Intensive,
    WebBased,
    Remote,
    Flexible,
}

/// A catalog entry as a course file gives it.
#[derive(Debug, Clone, PartialEq, Eq)]
pub struct JsonCourse {
    pub category: String,
    pub code: String,
    pub name: String,
    pub description: String,
    pub level: CourseLevel,
    pub num_units: i16,
    pub attendance_mode: CourseMode,
    pub active: bool,
    pub semesters: Vec<CourseSemester>,
}

/// The two shapes of a course file: an object with a member `courses`, or
/// the bare list.
#[derive(Debug, Clone, PartialEq, Eq)]
pub enum CourseContainer {
    Wrapped { courses: Vec<JsonCourse> },
    Flat(Vec<JsonCourse>),
}

impl CourseSemester {
    /// The semester that a word names.
    pub open spec fn spec_from_name(s: Seq<char>) -> Option<CourseSemester> {
        if s == "Research Quarter 1"@ {
            Some(CourseSemester::Rq1)
        } else if s == "Research Quarter 2"@ {
            Some(CourseSemester::Rq2)
        } else if s == "Research Quarter 3"@ {
            Some(CourseSemester::Rq3)
        } else if s == "Research Quarter 4"@ {
            Some(CourseSemester::Rq4)
        } else if s == "SFC Enrolment Year"@ {
            Some(CourseSemester::Sfc)
        } else if s == "Semester 1"@ {
            Some(CourseSemester::Sem1)
        } else if s == "Semester 2"@ {
            Some(CourseSemester::Sem2)
        } else if s == "Summer Semester"@ {
            Some(CourseSemester::Sems)
        } else if s == "Trimester 1"@ {
            Some(CourseSemester::Trim1)
        } else if s == "Trimester 2"@ {
            Some(CourseSemester::Trim2)
        } else if s == "Trimester 3"@ {
            Some(CourseSemester::Trim3)
        } else if s == "UQ College Intake 1"@ {
            Some(CourseSemester::College1)
        } else if s == "UQ College Intake 2"@ {
            Some(CourseSemester::College2)
        } else if s == "Other"@ {
            Some(CourseSemester::Other)
        } else {
            None
        }
    }

    /// The word for the semester.
    pub open spec fn spec_name(self) -> Seq<char> {
        match self {
            CourseSemester::Rq1 => "Research Quarter 1"@,
            CourseSemester::Rq2 => "Research Quarter 2"@,
            CourseSemester::Rq3 => "Research Quarter 3"@,
            CourseSemester::Rq4 => "Research Quarter 4"@,
            CourseSemester::Sfc => "SFC Enrolment Year"@,
            CourseSemester::Sem1 => "Semester 1"@,
            CourseSemester::Sem2 => "Semester 2"@,
            CourseSemester::Sems => "Summer Semester"@,
            CourseSemester::Trim1 => "Trimester 1"@,
            CourseSemester::Trim2 => "Trimester 2"@,
            CourseSemester::Trim3 => "Trimester 3"@,
            CourseSemester::College1 => "UQ College Intake 1"@,
            CourseSemester::College2 => "UQ College Intake 2"@,
            CourseSemester::Other => "Other"@,
        }
    }

    /// The semester that a word names; nothing for any other word.
    pub fn from_name(s: &str) -> (r: Option<CourseSemester>)
        ensures
            r == CourseSemester::spec_from_name(s@),
    {
        if same_text(s, "Research Quarter 1") {
            Some(CourseSemester::Rq1)
        } else if same_text(s, "Research Quarter 2") {
            Some(CourseSemester::Rq2)
        } else if same_text(s, "Research Quarter 3") {
            Some(CourseSemester::Rq3)
        } else if same_text(s, "Research Quarter 4") {
            Some(CourseSemester::Rq4)
        } else if same_text(s, "SFC Enrolment Year") {
            Some(CourseSemester::Sfc)
        } else if same_text(s, "Semester 1") {
            Some(CourseSemester::Sem1)
        } else if same_text(s, "Semester 2") {
            Some(CourseSemester::Sem2)
        } else if same_text(s, "Summer Semester") {
            Some(CourseSemester::Sems)
        } else if same_text(s, "Trimester 1") {
            Some(CourseSemester::Trim1)
        } else if same_text(s, "Trimester 2") {
            Some(CourseSemester::Trim2)
        } else if same_text(s, "Trimester 3") {
            Some(CourseSemester::Trim3)
        } else if same_text(s, "UQ College Intake 1") {
            Some(CourseSemester::College1)
        } else if same_text(s, "UQ College Intake 2") {
            Some(CourseSemester::College2)
        } else if same_text(s, "Other") {
            Some(CourseSemester::Other)
        } else {
            None
        }
    }

    /// The word for the semester.
    pub fn name(self) -> (r: &'static str)
        ensures
            r@ == self.spec_name(),
    {
        match self {
            CourseSemester::Rq1 => "Research Quarter 1",
            CourseSemester::Rq2 => "Research Quarter 2",
            CourseSemester::Rq3 => "Research Quarter 3",
            CourseSemester::Rq4 => "Research Quarter 4",
            CourseSemester::Sfc => "SFC Enrolment Year",
            CourseSemester::Sem1 => "Semester 1",
            CourseSemester::Sem2 => "Semester 2",
            CourseSemester::Sems => "Summer Semester",
            CourseSemester::Trim1 => "Trimester 1",
            CourseSemester::Trim2 => "Trimester 2",
            CourseSemester::Trim3 => "Trimester 3",
            CourseSemester::College1 => "UQ College Intake 1",
            CourseSemester::College2 => "UQ College Intake 2",
            CourseSemester::Other => "Other",
        }
    }
}

impl CourseLevel {
    /// The career that a word names.
    pub open spec fn spec_from_name(s: Seq<char>) -> Option<CourseLevel> {
        if s == "undergraduate"@ {
            Some(CourseLevel::Undergraduate)
        } else if s == "postgraduate"@ {
            Some(CourseLevel::Postgraduate)
        } else if s == "postgraduate coursework"@ {
            Some(CourseLevel::PostgraduateCoursework)
        } else if s == "uq college"@ {
            Some(CourseLevel::UqCollege)
        } else if s == "non-award"@ {
            Some(CourseLevel::NonAward)
        } else if s == "other"@ {
            Some(CourseLevel::Other)
        } else {
            None
        }
    }

    /// The word for the career.
    pub open spec fn spec_name(self) -> Seq<char> {
        match self {
            CourseLevel::Undergraduate => "undergraduate"@,
            CourseLevel::Postgraduate => "postgraduate"@,
            CourseLevel::PostgraduateCoursework => "postgraduate coursework"@,
            CourseLevel::UqCollege => "uq college"@,
            CourseLevel::NonAward => "non-award"@,
            CourseLevel::Other => "other"@,
        }
    }

    /// The career that a word names; nothing for any other word.
    pub fn from_name(s: &str) -> (r: Option<CourseLevel>)
        ensures
            r == CourseLevel::spec_from_name(s@),
    {
        if same_text(s, "undergraduate") {
            Some(CourseLevel::Undergraduate)
        } else if same_text(s, "postgraduate") {
            Some(CourseLevel::Postgraduate)
        } else if same_text(s, "postgraduate coursework") {
            Some(CourseLevel::PostgraduateCoursework)
        } else if same_text(s, "uq college") {
            Some(CourseLevel::UqCollege)
        } else if same_text(s, "non-award") {
            Some(CourseLevel::NonAward)
        } else if same_text(s, "other") {
            Some(CourseLevel::Other)
        } else {
            None
        }
    }

    /// The word for the career.
    pub fn name(self) -> (r: &'static str)
        ensures
            r@ == self.spec_name(),
    {
        match self {
            CourseLevel::Undergraduate => "undergraduate",
            CourseLevel::Postgraduate => "postgraduate",
            CourseLevel::PostgraduateCoursework => "postgraduate coursework",
            CourseLevel::UqCollege => "uq college",
            CourseLevel::NonAward => "non-award",
            CourseLevel::Other => "other",
        }
    }
}

impl CourseMode {
    /// The mode that a word names.
    pub open spec fn spec_from_name(s: Seq<char>) -> Option<CourseMode> {
        if s == "Work Experience"@ {
            Some(CourseMode::WorkExperience)
        } else if s == "In Person"@ {
            Some(CourseMode::InPerson)
        } else if s == "External"@ {
            Some(CourseMode::External)
        } else if s == "Internal"@ {
            Some(CourseMode::Internal)
        } else if s == "Weekend"@ {
            Some(CourseMode::Weekend)
        } else if s == "July Intensive"@ {
            Some(CourseMode::JulyIntensive)
        } else if s == "Off-Shore"@ {
            Some(CourseMode::OffShore)
        } else if s == "Off-Campus"@ {
            Some(CourseMode::OffCampus)
        } else if s == "Intensive"@ {
            Some(CourseMode::Intensive)
        } else if s == "Web Based"@ {
            Some(CourseMode::WebBased)
        } else if s == "Remote"@ {
            Some(CourseMode::Remote)
        } else if s == "Flexible Delivery"@ {
            Some(CourseMode::Flexible)
        } else {
            None
        }
    }

    /// The word for the mode.
    pub open spec fn spec_name(self) -> Seq<char> {
        match self {
            CourseMode::WorkExperience => "Work Experience"@,
            CourseMode::InPerson => "In Person"@,
            CourseMode::External => "External"@,
            CourseMode::Internal => "Internal"@,
            CourseMode::Weekend => "Weekend"@,
            CourseMode::JulyIntensive => "July Intensive"@,
            CourseMode::OffShore => "Off-Shore"@,
            CourseMode::OffCampus => "Off-Campus"@,
            CourseMode::Intensive => "Intensive"@,
            CourseMode::WebBased => "Web Based"@,
            CourseMode::Remote => "Remote"@,
            CourseMode::Flexible => "Flexible Delivery"@,
        }
    }

    /// The mode that a word names; nothing for any other word.
    pub fn from_name(s: &str) -> (r: Option<CourseMode>)
        ensures
            r == CourseMode::spec_from_name(s@),
    {
        if same_text(s, "Work Experience") {
            Some(CourseMode::WorkExperience)
        } else if same_text(s, "In Person") {
            Some(CourseMode::InPerson)
        } else if same_text(s, "External") {
            Some(CourseMode::External)
        } else if same_text(s, "Internal") {
            Some(CourseMode::Internal)
        } else if same_text(s, "Weekend") {
            Some(CourseMode::Weekend)
        } else if same_text(s, "July Intensive") {
            Some(CourseMode::JulyIntensive)
        } else if same_text(s, "Off-Shore") {
            Some(CourseMode::OffShore)
        } else if same_text(s, "Off-Campus") {
            Some(CourseMode::OffCampus)
        } else if same_text(s, "Intensive") {
            Some(CourseMode::Intensive)
        } else if same_text(s, "Web Based") {
            Some(CourseMode::WebBased)
        } else if same_text(s, "Remote") {
            Some(CourseMode::Remote)
        } else if same_text(s, "Flexible Delivery") {
            Some(CourseMode::Flexible)
        } else {
            None
        }
    }

    /// The word for the mode.
    pub fn name(self) -> (r: &'static str)
        ensures
            r@ == self.spec_name(),
    {
        match self {
            CourseMode::WorkExperience => "Work Experience",
            CourseMode::InPerson => "In Person",
            CourseMode::External => "External",
            CourseMode::Internal => "Internal",
            CourseMode::Weekend => "Weekend",
            CourseMode::JulyIntensive => "July Intensive",
            CourseMode::OffShore => "Off-Shore",
            CourseMode::OffCampus => "Off-Campus",
            CourseMode::Intensive => "Intensive",
            CourseMode::WebBased => "Web Based",
            CourseMode::Remote => "Remote",
            CourseMode::Flexible => "Flexible Delivery",
        }
    }
}

/// Whether a course is active where its entry does not say: it is.
pub fn default_active() -> (r: bool)
    ensures
        r,
{
    true
}

impl CourseContainer {
    /// The courses of the container, whatever its shape.
    pub open spec fn courses(self) -> Vec<JsonCourse> {
        match self {
            CourseContainer::Wrapped { courses } => courses,
            CourseContainer::Flat(v) => v,
        }
    }

    /// The courses of the container, whatever its shape.
    pub fn into_vec(self) -> (r: Vec<JsonCourse>)
        ensures
            r == self.courses(),
    {
        match self {
            CourseContainer::Wrapped { courses } => courses,
            CourseContainer::Flat(v) => v,
        }
    }
}

/// The semesters that the entries of an array name, where every entry is a
/// word for one.
pub open spec fn semester_items(items: Seq<JsonModel>) -> Option<Seq<CourseSemester>> {
    if forall|i: int| 0 <= i < items.len() ==> item_semester(#[trigger] items[i]) is Some {
        Some(Seq::new(items.len(), |i: int| item_semester(items[i])->Some_0))
    } else {
        None
    }
}

/// The semester that an entry names.
pub open spec fn item_semester(item: JsonModel) -> Option<CourseSemester> {
    match item {
        JsonModel::Str(s) => CourseSemester::spec_from_name(s),
        _ => None,
    }
}

/// The units of a course entry: a whole number within `i16`.
pub open spec fn units_field(v: JsonModel) -> Option<i16> {
    match int_field(v, "num_units"@) {
        Some(n) => if -32768 <= n <= 32767 {
            Some(n as i16)
        } else {
            None
        },
        None => None,
    }
}

/// Whether a course entry says if the course is active: a missing member
/// says that it is; a member of another type says nothing.
pub open spec fn active_field(v: JsonModel) -> Option<bool> {
    match field(v, "active"@) {
        None => Some(true),
        Some(JsonModel::Bool(b)) => Some(b),
        _ => None,
    }
}

/// The career that a course entry names.
pub open spec fn level_field(v: JsonModel) -> Option<CourseLevel> {
    match text_field(v, "level"@) {
        Some(s) => CourseLevel::spec_from_name(s),
        None => None,
    }
}

/// The attendance mode that a course entry names.
pub open spec fn mode_field(v: JsonModel) -> Option<CourseMode> {
    match text_field(v, "attendance_mode"@) {
        Some(s) => CourseMode::spec_from_name(s),
        None => None,
    }
}

/// The semesters that a course entry names.
pub open spec fn semesters_field(v: JsonModel) -> Option<Seq<CourseSemester>> {
    match items_field(v, "semesters"@) {
        Some(items) => semester_items(items),
        None => None,
    }
}

/// Whether the record `v` can be read as a course entry: every member but
/// `active` is there and has its type.
pub open spec fn course_ok(v: JsonModel) -> bool {
    &&& text_field(v, "category"@) is Some
    &&& text_field(v, "code"@) is Some
    &&& text_field(v, "name"@) is Some
    &&& text_field(v, "description"@) is Some
    &&& level_field(v) is Some
    &&& units_field(v) is Some
    &&& mode_field(v) is Some
    &&& active_field(v) is Some
    &&& semesters_field(v) is Some
}

/// Whether `c` is the course entry that the record `v` describes.
pub open spec fn is_course_of(c: JsonCourse, v: JsonModel) -> bool {
    &&& Some(c.category@) == text_field(v, "category"@)
    &&& Some(c.code@) == text_field(v, "code"@)
    &&& Some(c.name@) == text_field(v, "name"@)
    &&& Some(c.description@) == text_field(v, "description"@)
    &&& Some(c.level) == level_field(v)
    &&& Some(c.num_units) == units_field(v)
    &&& Some(c.attendance_mode) == mode_field(v)
    &&& Some(c.active) == active_field(v)
    &&& Some(c.semesters@) == semesters_field(v)
}

/// The course records of a course file: the member `courses` of an object,
/// or the array itself; nothing for any other shape.
pub open spec fn course_items(v: JsonModel) -> Option<Seq<JsonModel>> {
    match items_field(v, "courses"@) {
        Some(items) => Some(items),
        None => match v {
            JsonModel::Arr(items) => Some(items),
            _ => None,
        },
    }
}

/// Whether `v` can be read as a course file: it has one of the two shapes,
/// and every course record in it can be read.
pub open spec fn container_ok(v: JsonModel) -> bool {
    course_items(v) is Some && forall|i: int|
        0 <= i < course_items(v)->Some_0.len() ==> course_ok(#[trigger] course_items(v)->Some_0[i])
}

/// Whether `list` holds the course entries that `items` describe, in order.
pub open spec fn is_courses_of(list: Seq<JsonCourse>, items: Seq<JsonModel>) -> bool {
    list.len() == items.len() && forall|i: int|
        0 <= i < items.len() ==> is_course_of(list[i], #[trigger] items[i])
}

/// Reads the semesters of an array; nothing where an entry names none.
pub fn read_semesters(items: &Vec<JsonValue>) -> (r: Option<Vec<CourseSemester>>)
    ensures
        match r {
            Some(list) => semester_items(models(items@, items@.len() as int)) == Some(list@),
            None => semester_items(models(items@, items@.len() as int)) is None,
        },
{
    let ghost ms = models(items@, items@.len() as int);
    proof {
        lemma_models(items@, items@.len() as int);
    }
    let mut out: Vec<CourseSemester> = Vec::new();
    let mut i: usize = 0;
    while i < items.len()
        invariant
            i <= items.len(),
            ms == models(items@, items@.len() as int),
            ms.len() == items@.len(),
            forall|j: int| 0 <= j < items@.len() ==> #[trigger] ms[j] == model(items@[j]),
            out@.len() == i,
            forall|j: int| 0 <= j < i ==> item_semester(#[trigger] ms[j]) == Some(out@[j]),
        decreases items.len() - i,
    {
        assert(ms[i as int] == items@[i as int]@);
        let found = match &items[i] {
            JsonValue::Str(s) => CourseSemester::from_name(s.as_str()),
            _ => None,
        };
        match found {
            Some(semester) => {
                out.push(semester);
            },
            None => {
                assert(item_semester(ms[i as int]) is None);
                return None;
            },
        }
        i = i + 1;
    }
    assert(out@ =~= Seq::new(ms.len(), |i: int| item_semester(ms[i])->Some_0));
    Some(out)
}

/// Reads a course entry; nothing where the record cannot be read as one.
pub fn read_course(v: &JsonValue) -> (r: Option<JsonCourse>)
    ensures
        match r {
            Some(c) => course_ok(v@) && is_course_of(c, v@),
            None => !course_ok(v@),
        },
{
    let category = match v.get_str("category") {
        Some(s) => s,
        None => {
            return None;
        },
    };
    let code = match v.get_str("code") {
        Some(s) => s,
        None => {
            return None;
        },
    };
    let name = match v.get_str("name") {
        Some(s) => s,
        None => {
            return None;
        },
    };
    let description = match v.get_str("description") {
        Some(s) => s,
        None => {
            return None;
        },
    };
    let level = match v.get_str("level") {
        Some(s) => match CourseLevel::from_name(s.as_str()) {
            Some(l) => l,
            None => {
                return None;
            },
        },
        None => {
            return None;
        },
    };
    let num_units = match v.get_int("num_units") {
        Some(n) => {
            if -32768 <= n && n <= 32767 {
                n as i16
            } else {
                return None;
            }
        },
        None => {
            return None;
        },
    };
    let attendance_mode = match v.get_str("attendance_mode") {
        Some(s) => match CourseMode::from_name(s.as_str()) {
            Some(m) => m,
            None => {
                return None;
            },
        },
        None => {
            return None;
        },
    };
    let active = match v.get("active") {
        None => default_active(),
        Some(JsonValue::Bool(b)) => *b,
        Some(_) => {
            return None;
        },
    };
    let semesters = match v.get_items("semesters") {
        Some(items) => match read_semesters(items) {
            Some(list) => list,
            None => {
                return None;
            },
        },
        None => {
            return None;
        },
    };
    Some(
        JsonCourse {
            category,
            code,
            name,
            description,
            level,
            num_units,
            attendance_mode,
            active,
            semesters,
        },
    )
}

/// Reads course entries in order; nothing where one of them cannot be read.
pub fn read_courses(items: &Vec<JsonValue>) -> (r: Option<Vec<JsonCourse>>)
    ensures
        match r {
            Some(list) => is_courses_of(list@, models(items@, items@.len() as int)) && forall|
                i: int,
            |
                0 <= i < items@.len() ==> course_ok(
                    #[trigger] models(items@, items@.len() as int)[i],
                ),
            None => exists|i: int|
                0 <= i < items@.len() && !course_ok(
                    #[trigger] models(items@, items@.len() as int)[i],
                ),
        },
{
    let ghost ms = models(items@, items@.len() as int);
    proof {
        lemma_models(items@, items@.len() as int);
    }
    let mut out: Vec<JsonCourse> = Vec::new();
    let mut i: usize = 0;
    while i < items.len()
        invariant
            i <= items.len(),
            ms == models(items@, items@.len() as int),
            ms.len() == items@.len(),
            forall|j: int| 0 <= j < items@.len() ==> #[trigger] ms[j] == model(items@[j]),
            out@.len() == i,
            forall|j: int| 0 <= j < i ==> course_ok(#[trigger] ms[j]) && is_course_of(out@[j], ms[j]),
        decreases items.len() - i,
    {
        assert(ms[i as int] == items@[i as int]@);
        match read_course(&items[i]) {
            Some(c) => {
                out.push(c);
            },
            None => {
                assert(!course_ok(ms[i as int]));
                return None;
            },
        }
        i = i + 1;
    }
    Some(out)
}

/// Reads a course file of either shape; nothing where it has neither shape
/// or holds a course record that cannot be read.
pub fn read_container(v: &JsonValue) -> (r: Option<CourseContainer>)
    ensures
        match r {
            Some(container) => container_ok(v@) && is_courses_of(
                container.courses()@,
                course_items(v@)->Some_0,
            ) && (container is Wrapped <==> items_field(v@, "courses"@) is Some),
            None => !container_ok(v@),
        },
{
    match v.get_items("courses") {
        Some(items) => {
            let ghost ms = models(items@, items@.len() as int);
            proof {
                lemma_models(items@, items@.len() as int);
                assert(course_items(v@) == Some(ms));
            }
            match read_courses(items) {
                Some(courses) => {
                    assert forall|i: int| 0 <= i < ms.len() implies course_ok(#[trigger] ms[i]) by {}
                    assert(is_courses_of(courses@, ms));
                    Some(CourseContainer::Wrapped { courses })
                },
                None => {
                    proof {
                        let i = choose|i: int| 0 <= i < items@.len() && !course_ok(#[trigger] ms[i]);
                        assert(!course_ok(course_items(v@)->Some_0[i]));
                    }
                    None
                },
            }
        },
        None => match v.as_array() {
            Some(items) => {
                let ghost ms = models(items@, items@.len() as int);
                proof {
                    lemma_models(items@, items@.len() as int);
                    assert(course_items(v@) == Some(ms));
                }
                match read_courses(items) {
                    Some(courses) => {
                        assert forall|i: int| 0 <= i < ms.len() implies course_ok(
                            #[trigger] ms[i],
                        ) by {}
                        assert(is_courses_of(courses@, ms));
                        Some(CourseContainer::Flat(courses))
                    },
                    None => {
                        proof {
                            let i = choose|i: int|
                                0 <= i < items@.len() && !course_ok(#[trigger] ms[i]);
                            assert(!course_ok(course_items(v@)->Some_0[i]));
                        }
                        None
                    },
                }
            },
            None => None,
        },
    }
}

} // verus!
