//! What a student has taken and is enrolled in, as the caller supplies it.
use crate::ident::{CourseCode, Level, ProgramCode, Units};
use vstd::prelude::*;

verus! {

/// Level and units of a course, as a catalog gives them.
#[derive(Debug, Clone, Copy, PartialEq, Eq, Structural)]
pub struct CourseFacts {
    pub level: Level,
    pub units: Units,
}

/// A course of the selection with what is known of it.
#[derive(Debug, Clone, PartialEq, Eq)]
pub struct SelectedCourse {
    pub code: CourseCode,
    /// Absent where no catalog entry was found for the course.
    pub facts: Option<CourseFacts>,
    /// The discipline descriptor of the course, where the caller has one.
    pub discipline: Option<String>,
    /// The code of the organisation that offers the course, where known.
    pub org_code: Option<String>,
}

/// How courses are grouped into disciplines.
#[derive(Debug, Clone, Copy, PartialEq, Eq, Structural)]
pub enum DisciplineGrouping {
    /// By the letters of the course code.
    CodePrefix,
    /// By the descriptor that the caller gives with each course.
    Descriptor,
}

/// The courses a student has completed or enrolled in, and the programs and
/// plans the student is in.
#[derive(Debug, Clone, PartialEq, Eq)]
pub struct StudentSelection {
    pub courses: Vec<SelectedCourse>,
    /// Absent where the caller does not know the student's programs.
    pub programs: Option<Vec<ProgramCode>>,
    pub grouping: DisciplineGrouping,
}

/// Whether `list` names the course `code`.
pub open spec fn lists_course(list: Seq<CourseCode>, code: CourseCode) -> bool {
    exists|i: int| 0 <= i < list.len() && (#[trigger] list[i])@ == code@
}

/// Whether `list` names the program `code`.
pub open spec fn lists_program(list: Seq<ProgramCode>, code: ProgramCode) -> bool {
    exists|i: int| 0 <= i < list.len() && (#[trigger] list[i])@ == code@
}

/// Whether the course at position `j` counts under the mask `credit`. A
/// position that the mask does not reach does not count.
pub open spec fn credited(credit: Seq<bool>, j: int) -> bool {
    0 <= j < credit.len() && credit[j]
}

impl StudentSelection {
    /// Whether the student is known to be in the program or plan `plan`.
    pub open spec fn enrolled(&self, plan: ProgramCode) -> bool {
        self.programs is Some && lists_program(self.programs->Some_0@, plan)
    }

    /// Whether the student is known to be in one of `plans`.
    pub open spec fn enrolled_in_any(&self, plans: Seq<ProgramCode>) -> bool {
        exists|i: int| 0 <= i < plans.len() && self.enrolled(#[trigger] plans[i])
    }

    /// Whether the selection holds the course `code`.
    pub open spec fn has_course(&self, code: CourseCode) -> bool {
        exists|j: int| 0 <= j < self.courses@.len() && (#[trigger] self.courses@[j]).code@ == code@
    }

    /// Whether the selection holds one of the courses of `list`.
    pub open spec fn has_any_course(&self, list: Seq<CourseCode>) -> bool {
        exists|i: int| 0 <= i < list.len() && self.has_course(#[trigger] list[i])
    }

    /// Whether the selection holds a course that is written `text`.
    pub open spec fn has_course_text(&self, text: Seq<char>) -> bool {
        exists|j: int|
            0 <= j < self.courses@.len() && (#[trigger] self.courses@[j]).code.text() == text
    }

    /// Whether the student is known to be in a program that is written `text`.
    pub open spec fn has_program_text(&self, text: Seq<char>) -> bool {
        self.programs is Some && exists|j: int|
            0 <= j < self.programs->Some_0@.len() && (#[trigger] self.programs->Some_0@[j])@
                == text
    }

    /// A selection of the given courses, with programs unknown and
    /// disciplines taken from the course codes.
    pub fn new(courses: Vec<SelectedCourse>) -> (r: StudentSelection)
        ensures
            r.courses == courses,
            r.programs is None,
            r.grouping == DisciplineGrouping::CodePrefix,
    {
        StudentSelection { courses, programs: None, grouping: DisciplineGrouping::CodePrefix }
    }

    /// Whether the student is known to be in the program or plan `plan`.
    pub fn is_enrolled(&self, plan: &ProgramCode) -> (r: bool)
        ensures
            r == self.enrolled(*plan),
    {
        match &self.programs {
            None => false,
            Some(programs) => list_has_program(programs, plan),
        }
    }

    /// Whether the student is known to be in one of `plans`.
    pub fn is_enrolled_in_any(&self, plans: &Vec<ProgramCode>) -> (r: bool)
        ensures
            r == self.enrolled_in_any(plans@),
    {
        let mut i: usize = 0;
        while i < plans.len()
            invariant
                i <= plans.len(),
                forall|k: int| 0 <= k < i ==> !self.enrolled(#[trigger] plans@[k]),
            decreases plans.len() - i,
        {
            if self.is_enrolled(&plans[i]) {
                return true;
            }
            i = i + 1;
        }
        false
    }

    /// Whether the selection holds the course `code`.
    pub fn holds_course(&self, code: &CourseCode) -> (r: bool)
        ensures
            r == self.has_course(*code),
    {
        let mut j: usize = 0;
        while j < self.courses.len()
            invariant
                j <= self.courses.len(),
                forall|k: int| 0 <= k < j ==> (#[trigger] self.courses@[k]).code@ != code@,
            decreases self.courses.len() - j,
        {
            if self.courses[j].code.same_as(code) {
                return true;
            }
            j = j + 1;
        }
        false
    }

    /// Whether the selection holds one of the courses of `list`.
    pub fn holds_any_course(&self, list: &Vec<CourseCode>) -> (r: bool)
        ensures
            r == self.has_any_course(list@),
    {
        let mut i: usize = 0;
        while i < list.len()
            invariant
                i <= list.len(),
                forall|k: int| 0 <= k < i ==> !self.has_course(#[trigger] list@[k]),
            decreases list.len() - i,
        {
            if self.holds_course(&list[i]) {
                return true;
            }
            i = i + 1;
        }
        false
    }

    /// Whether the selection holds a course that is written `text`.
    pub fn holds_course_text(&self, text: &String) -> (r: bool)
        ensures
            r == self.has_course_text(text@),
    {
        let mut j: usize = 0;
        while j < self.courses.len()
            invariant
                j <= self.courses.len(),
                forall|k: int| 0 <= k < j ==> (#[trigger] self.courses@[k]).code.text() != text@,
            decreases self.courses.len() - j,
        {
            let written = self.courses[j].code.to_string();
            if written == *text {
                return true;
            }
            j = j + 1;
        }
        false
    }

    /// Whether the student is known to be in a program that is written `text`.
    pub fn holds_program_text(&self, text: &String) -> (r: bool)
        ensures
            r == self.has_program_text(text@),
    {
        match &self.programs {
            None => false,
            Some(programs) => {
                let mut j: usize = 0;
                while j < programs.len()
                    invariant
                        self.programs is Some,
                        self.programs->Some_0 == *programs,
                        j <= programs.len(),
                        forall|k: int| 0 <= k < j ==> (#[trigger] programs@[k])@ != text@,
                    decreases programs.len() - j,
                {
                    if programs[j].code == *text {
                        return true;
                    }
                    j = j + 1;
                }
                false
            },
        }
    }
}

/// Whether `list` names the program `code`.
pub fn list_has_program(list: &Vec<ProgramCode>, code: &ProgramCode) -> (r: bool)
    ensures
        r == lists_program(list@, *code),
{
    let mut i: usize = 0;
    while i < list.len()
        invariant
            i <= list.len(),
            forall|k: int| 0 <= k < i ==> (#[trigger] list@[k])@ != code@,
        decreases list.len() - i,
    {
        if list[i].same_as(code) {
            return true;
        }
        i = i + 1;
    }
    false
}

/// Whether `list` names the course `code`.
pub fn list_has_course(list: &Vec<CourseCode>, code: &CourseCode) -> (r: bool)
    ensures
        r == lists_course(list@, *code),
{
    let mut i: usize = 0;
    while i < list.len()
        invariant
            i <= list.len(),
            forall|k: int| 0 <= k < i ==> (#[trigger] list@[k])@ != code@,
        decreases list.len() - i,
    {
        if list[i].same_as(code) {
            return true;
        }
        i = i + 1;
    }
    false
}

} // verus!
