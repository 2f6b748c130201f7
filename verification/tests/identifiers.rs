use degree_verifier::ident::{parse_course_code, parse_program_code, CourseCode, ParseError};
use degree_verifier::part::{parse_part_label, PartSymbol};
use degree_verifier::text::{is_alpha_ascii, is_digit_ascii, lower, same_text_ignoring_case};

#[test]
fn course_code_is_four_letters_then_four_digits() {
    let code = parse_course_code("CSSE2310").unwrap();
    assert_eq!(code.prefix, "CSSE");
    assert_eq!(code.postfix, "2310");
    assert_eq!(code, CourseCode { prefix: "CSSE".to_string(), postfix: "2310".to_string() });
}

#[test]
fn course_code_keeps_the_case_of_its_letters() {
    let code = parse_course_code("csSe0001").unwrap();
    assert_eq!(code.prefix, "csSe");
    assert_eq!(code.postfix, "0001");
}

#[test]
fn course_code_round_trips_through_its_text() {
    for text in ["CSSE2310", "math1051", "AbCd0000", "ZZZZ9999"] {
        let code = parse_course_code(text).unwrap();
        let written = code.to_string();
        assert_eq!(written, text);
        assert_eq!(parse_course_code(&written).unwrap(), code);
    }
}

#[test]
fn course_code_rejects_other_lengths() {
    for text in ["", "C", "CSSE", "CSSE231", "CSSE23100", "CSSEE2310", "CSS2310"] {
        assert_eq!(parse_course_code(text), Err(ParseError::MalformedCourseCode));
    }
}

#[test]
fn course_code_rejects_other_characters() {
    for text in ["CSSE231A", "1234CSSE", "CSS 2310", "CSSE-231", "CS5E2310", "CSSÉ2310", "CSSE２310"]
    {
        assert_eq!(parse_course_code(text), Err(ParseError::MalformedCourseCode));
    }
}

#[test]
fn course_code_rejects_trailing_input() {
    assert_eq!(parse_course_code("CSSE2310 "), Err(ParseError::MalformedCourseCode));
    assert_eq!(parse_course_code("CSSE2310X"), Err(ParseError::MalformedCourseCode));
}

#[test]
fn course_codes_compare_by_both_halves() {
    let a = parse_course_code("CSSE2310").unwrap();
    let b = parse_course_code("CSSE2310").unwrap();
    let c = parse_course_code("CSSE2010").unwrap();
    let d = parse_course_code("COMP2310").unwrap();
    assert!(a.same_as(&b));
    assert!(!a.same_as(&c));
    assert!(!a.same_as(&d));
    assert_eq!(a.duplicate(), a);
}

#[test]
fn program_code_is_letters_then_digits() {
    for text in ["A1", "BE2455", "abc0", "X0123456789"] {
        let code = parse_program_code(text).unwrap();
        assert_eq!(code.code, text);
        assert_eq!(code.to_string(), text);
    }
}

#[test]
fn program_code_rejects_empty_halves_and_other_shapes() {
    for text in ["", "ABC", "123", "AB12C", "1AB", "AB 12", "AB_12", "AB12 "] {
        assert_eq!(parse_program_code(text), Err(ParseError::MalformedProgramCode));
    }
}

#[test]
fn part_label_reads_letters_and_numbers() {
    let label = parse_part_label("A.1.b").unwrap();
    assert_eq!(
        label.symbols(),
        vec![PartSymbol::Char('A'), PartSymbol::Num(1), PartSymbol::Char('b')]
    );
    assert_eq!(label.len(), 3);
    assert_eq!(label.symbol(1), PartSymbol::Num(1));
}

#[test]
fn part_label_of_one_letter() {
    let label = parse_part_label("C").unwrap();
    assert_eq!(label.symbols(), vec![PartSymbol::Char('C')]);
    assert_eq!(label.to_string(), "C");
}

#[test]
fn part_label_writes_each_symbol_with_dots_between() {
    assert_eq!(parse_part_label("A.1.b").unwrap().to_string(), "A.1.b");
    assert_eq!(parse_part_label("z.10.200.q").unwrap().to_string(), "z.10.200.q");
    assert_eq!(parse_part_label("B.0").unwrap().to_string(), "B.0");
    assert_eq!(parse_part_label("B.32767").unwrap().to_string(), "B.32767");
}

#[test]
fn part_label_canonical_form_drops_leading_zeros() {
    let label = parse_part_label("A.007.b").unwrap();
    assert_eq!(label.symbols()[1], PartSymbol::Num(7));
    let written = label.to_string();
    assert_eq!(written, "A.7.b");
    let again = parse_part_label(&written).unwrap();
    assert_eq!(again, label);
    assert_eq!(again.to_string(), written);
}

#[test]
fn part_label_round_trip_is_stable() {
    for text in ["A", "A.1", "A.b", "A.1.b.2.c", "x.0.0.0", "Q.12345", "A.00.01"] {
        let label = parse_part_label(text).unwrap();
        let again = parse_part_label(&label.to_string()).unwrap();
        assert_eq!(again, label);
        assert!(again.same_as(&label));
    }
}

#[test]
fn part_label_rejects_what_the_grammar_does_not_produce() {
    for text in [
        "", "1", "1.A", ".", ".A", "A.", "A..1", "A.1.", "AB", "A.bc", "A.1b", "A.b1", "A 1",
        "A.-1", "A.+1", "A.1 ", " A", "A.é", "É",
    ] {
        assert_eq!(parse_part_label(text), Err(ParseError::MalformedPartLabel));
    }
}

#[test]
fn part_label_rejects_numbers_beyond_sixteen_bits() {
    assert!(parse_part_label("A.32767").is_ok());
    assert_eq!(parse_part_label("A.32768"), Err(ParseError::MalformedPartLabel));
    assert_eq!(parse_part_label("A.99999999999999999999"), Err(ParseError::MalformedPartLabel));
    assert_eq!(
        parse_part_label("A.0000000000000000000000032767").unwrap().symbols()[1],
        PartSymbol::Num(32767)
    );
}

#[test]
fn part_label_copy_is_equal() {
    let label = parse_part_label("A.1.b").unwrap();
    assert_eq!(label.duplicate(), label);
    assert_eq!(label.clone(), label);
    assert!(!label.same_as(&parse_part_label("A.1.c").unwrap()));
    assert!(!label.same_as(&parse_part_label("A.1").unwrap()));
}

#[test]
fn character_classes() {
    assert!(is_alpha_ascii('a') && is_alpha_ascii('z') && is_alpha_ascii('A') && is_alpha_ascii('Z'));
    assert!(!is_alpha_ascii('0') && !is_alpha_ascii('[') && !is_alpha_ascii('`') && !is_alpha_ascii('é'));
    assert!(is_digit_ascii('0') && is_digit_ascii('9'));
    assert!(!is_digit_ascii('a') && !is_digit_ascii('/') && !is_digit_ascii(':') && !is_digit_ascii('٣'));
    assert_eq!(lower('A'), 'a');
    assert_eq!(lower('Z'), 'z');
    assert_eq!(lower('a'), 'a');
    assert_eq!(lower('1'), '1');
    assert_eq!(lower('É'), 'É');
}

#[test]
fn text_compares_without_case() {
    assert!(same_text_ignoring_case("curriculumReference", "CurriculumReference"));
    assert!(same_text_ignoring_case("", ""));
    assert!(!same_text_ignoring_case("and", "an"));
    assert!(!same_text_ignoring_case("and", "ane"));
}
