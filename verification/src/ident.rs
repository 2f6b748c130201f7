//! Course codes and program codes, and the grammar that reads them.
use crate::text::{
    all_alpha, all_digits, alpha_run, is_alpha_ascii, is_digit_ascii, lemma_alpha_run,
    spec_is_alpha_ascii, spec_is_digit_ascii,
};
use vstd::prelude::*;

verus! {

/// A count of semester units.
pub type Units = u16;

/// The level of a course.
pub type Level = u16;

/// Why an identifier was rejected.
#[derive(Debug, Clone, Copy, PartialEq, Eq, Structural)]
pub enum ParseError {
    /// Not four letters followed by four digits.
    MalformedCourseCode,
    /// Not one or more letters followed by one or more digits.
    MalformedProgramCode,
    /// Not a letter followed by dotted letters and numbers.
    MalformedPartLabel,
}

/// A course code: four ASCII letters, then four ASCII digits. Codes are
/// ordered by their letters first and their digits second.
#[derive(Debug, Clone, PartialEq, Eq, PartialOrd, Ord, Hash)]
pub struct CourseCode {
    pub prefix: String,
    pub postfix: String,
}

/// A program or plan code.
#[derive(Debug, Clone, PartialEq, Eq, PartialOrd, Ord, Hash)]
pub struct ProgramCode {
    pub code: String,
}

/// Whether `s` is written as a course code: exactly four letters, then exactly
/// four digits, and nothing else.
pub open spec fn is_course_code_text(s: Seq<char>) -> bool {
    &&& s.len() == 8
    &&& all_alpha(s.subrange(0, 4))
    &&& all_digits(s.subrange(4, 8))
}

/// What a text reads as: the two halves of a course code, or nothing.
pub open spec fn spec_parse_course_code(s: Seq<char>) -> Option<(Seq<char>, Seq<char>)> {
    if is_course_code_text(s) {
        Some((s.subrange(0, 4), s.subrange(4, 8)))
    } else {
        None
    }
}

/// Whether `s` is written as a program code: one or more letters, then one or
/// more digits, and nothing else.
pub open spec fn is_program_code_text(s: Seq<char>) -> bool {
    exists|k: int|
        1 <= k < s.len() && all_alpha(#[trigger] s.subrange(0, k)) && all_digits(
            s.subrange(k, s.len() as int),
        )
}

impl View for CourseCode {
    type V = (Seq<char>, Seq<char>);

    open spec fn view(&self) -> (Seq<char>, Seq<char>) {
        (self.prefix@, self.postfix@)
    }
}

impl View for ProgramCode {
    type V = Seq<char>;

    open spec fn view(&self) -> Seq<char> {
        self.code@
    }
}

impl CourseCode {
    /// The code holds four letters and four digits.
    pub open spec fn wf(&self) -> bool {
        &&& self.prefix@.len() == 4
        &&& all_alpha(self.prefix@)
        &&& self.postfix@.len() == 4
        &&& all_digits(self.postfix@)
    }

    /// The code as it is written: the letters, then the digits.
    pub open spec fn text(&self) -> Seq<char> {
        self.prefix@ + self.postfix@
    }

    /// The code as it is written.
    pub fn to_string(&self) -> (r: String)
        ensures
            r@ == self.text(),
    {
        let mut out = String::from_str(self.prefix.as_str());
        out.append(self.postfix.as_str());
        out
    }

    /// Whether both codes have the same letters and the same digits.
    pub fn same_as(&self, other: &CourseCode) -> (r: bool)
        ensures
            r == (self@ == other@),
    {
        self.prefix == other.prefix && self.postfix == other.postfix
    }

    /// A copy of the code.
    pub fn duplicate(&self) -> (r: CourseCode)
        ensures
            r == *self,
    {
        CourseCode { prefix: self.prefix.clone(), postfix: self.postfix.clone() }
    }
}

impl ProgramCode {
    /// The code is one or more letters followed by one or more digits.
    pub open spec fn wf(&self) -> bool {
        is_program_code_text(self.code@)
    }

    /// The letters that the code starts with.
    pub open spec fn prefix(&self) -> Seq<char> {
        self.code@.subrange(0, alpha_run(self.code@) as int)
    }

    /// What follows the leading letters.
    pub open spec fn postfix(&self) -> Seq<char> {
        self.code@.skip(alpha_run(self.code@) as int)
    }

    /// The code as it is written.
    pub fn to_string(&self) -> (r: String)
        ensures
            r@ == self@,
    {
        self.code.clone()
    }

    /// Whether both codes are written the same.
    pub fn same_as(&self, other: &ProgramCode) -> (r: bool)
        ensures
            r == (self@ == other@),
    {
        self.code == other.code
    }

    /// A copy of the code.
    pub fn duplicate(&self) -> (r: ProgramCode)
        ensures
            r == *self,
    {
        ProgramCode { code: self.code.clone() }
    }
}

/// Reads a course code. The whole input must be the code: four ASCII letters,
/// then four ASCII digits. The letters keep their case.
pub fn parse_course_code(input: &str) -> (r: Result<CourseCode, ParseError>)
    ensures
        match r {
            Ok(code) => spec_parse_course_code(input@) == Some(code@) && code.wf(),
            Err(e) => spec_parse_course_code(input@) is None && e
                == ParseError::MalformedCourseCode,
        },
{
    let n: usize = input.unicode_len();
    if n != 8 {
        return Err(ParseError::MalformedCourseCode);
    }
    let mut i: usize = 0;
    while i < 4
        invariant
            input@.len() == 8,
            i <= 4,
            forall|j: int| 0 <= j < i ==> spec_is_alpha_ascii(#[trigger] input@[j]),
        decreases 4 - i,
    {
        if !is_alpha_ascii(input.get_char(i)) {
            assert(!spec_is_alpha_ascii(input@.subrange(0, 4)[i as int]));
            return Err(ParseError::MalformedCourseCode);
        }
        i = i + 1;
    }
    while i < 8
        invariant
            input@.len() == 8,
            4 <= i <= 8,
            forall|j: int| 0 <= j < 4 ==> spec_is_alpha_ascii(#[trigger] input@[j]),
            forall|j: int| 4 <= j < i ==> spec_is_digit_ascii(#[trigger] input@[j]),
        decreases 8 - i,
    {
        if !is_digit_ascii(input.get_char(i)) {
            assert(!spec_is_digit_ascii(input@.subrange(4, 8)[i - 4]));
            return Err(ParseError::MalformedCourseCode);
        }
        i = i + 1;
    }
    let prefix = String::from_str(input.substring_char(0, 4));
    let postfix = String::from_str(input.substring_char(4, 8));
    Ok(CourseCode { prefix, postfix })
}

/// Reads a program code. The whole input must be the code: one or more ASCII
/// letters, then one or more ASCII digits.
pub fn parse_program_code(input: &str) -> (r: Result<ProgramCode, ParseError>)
    ensures
        match r {
            Ok(code) => is_program_code_text(input@) && code@ == input@,
            Err(e) => !is_program_code_text(input@) && e == ParseError::MalformedProgramCode,
        },
{
    let n: usize = input.unicode_len();
    let mut k: usize = 0;
    while k < n && is_alpha_ascii(input.get_char(k))
        invariant
            n == input@.len(),
            k <= n,
            forall|j: int| 0 <= j < k ==> spec_is_alpha_ascii(#[trigger] input@[j]),
        decreases n - k,
    {
        k = k + 1;
    }
    proof {
        lemma_alpha_run(input@, k as int);
        assert forall|m: int|
            1 <= m < n && all_alpha(#[trigger] input@.subrange(0, m)) && all_digits(
                input@.subrange(m, n as int),
            ) implies m == k by {
            lemma_split_is_alpha_run(input@, m);
        }
    }
    if k == 0 || k == n {
        return Err(ParseError::MalformedProgramCode);
    }
    let mut i: usize = k;
    while i < n
        invariant
            n == input@.len(),
            1 <= k <= i <= n,
            forall|j: int| k <= j < i ==> spec_is_digit_ascii(#[trigger] input@[j]),
            forall|m: int|
                1 <= m < n && all_alpha(#[trigger] input@.subrange(0, m)) && all_digits(
                    input@.subrange(m, n as int),
                ) ==> m == k,
        decreases n - i,
    {
        if !is_digit_ascii(input.get_char(i)) {
            assert(!spec_is_digit_ascii(input@.subrange(k as int, n as int)[i - k]));
            return Err(ParseError::MalformedProgramCode);
        }
        i = i + 1;
    }
    assert(all_alpha(input@.subrange(0, k as int)));
    assert(all_digits(input@.subrange(k as int, n as int)));
    Ok(ProgramCode { code: String::from_str(input) })
}

/// Where a text splits into letters and then digits, the split is at the end
/// of its leading letters.
pub proof fn lemma_split_is_alpha_run(s: Seq<char>, m: int)
    requires
        1 <= m < s.len(),
        all_alpha(s.subrange(0, m)),
        all_digits(s.subrange(m, s.len() as int)),
    ensures
        alpha_run(s) == m,
{
    assert(spec_is_digit_ascii(s.subrange(m, s.len() as int)[0]));
    assert(s.subrange(m, s.len() as int)[0] == s[m]);
    lemma_alpha_run(s, m);
}

/// A course code that was read, written out and read again is the same code.
pub proof fn law_course_code_round_trip(s: Seq<char>)
    requires
        spec_parse_course_code(s) is Some,
    ensures
        ({
            let halves = spec_parse_course_code(s)->Some_0;
            spec_parse_course_code(halves.0 + halves.1) == Some(halves)
        }),
{
    let halves = spec_parse_course_code(s)->Some_0;
    assert(halves.0 + halves.1 =~= s);
}

/// A text reads as a course code exactly when it is four letters followed by
/// four digits; any other length or character class is rejected.
pub proof fn law_course_code_shape(s: Seq<char>)
    ensures
        spec_parse_course_code(s) is Some <==> (s.len() == 8 && (forall|i: int|
            0 <= i < 4 ==> spec_is_alpha_ascii(#[trigger] s[i])) && (forall|i: int|
            4 <= i < 8 ==> spec_is_digit_ascii(#[trigger] s[i]))),
{
    if s.len() == 8 {
        if spec_parse_course_code(s) is Some {
            assert forall|i: int| 0 <= i < 4 implies spec_is_alpha_ascii(#[trigger] s[i]) by {
                assert(s.subrange(0, 4)[i] == s[i]);
            }
            assert forall|i: int| 4 <= i < 8 implies spec_is_digit_ascii(#[trigger] s[i]) by {
                assert(s.subrange(4, 8)[i - 4] == s[i]);
            }
        }
    }
}

} // verus!
