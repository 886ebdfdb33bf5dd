use kon::error::{InterpreterErrorDiscriminants, KonError};
use kon::interpreter::Interpreter;

fn run_ok(source: &str) -> String {
    let mut interpreter = Interpreter::new();
    match interpreter.run(source.to_string()) {
        Ok(value) => value,
        Err(error) => panic!("expected success, got `{}`", error.report_string()),
    }
}

fn run_err(source: &str) -> KonError {
    let mut interpreter = Interpreter::new();
    match interpreter.run(source.to_string()) {
        Ok(value) => panic!("expected failure, got `{}`", value),
        Err(error) => error,
    }
}

#[test]
fn precedence_climbs_over_addition() {
    assert_eq!(run_ok("1 + 2 * 3"), "7");
}

#[test]
fn subtraction_is_left_associative() {
    assert_eq!(run_ok("8 - 3 - 2"), "3");
}

#[test]
fn string_concatenation() {
    assert_eq!(run_ok("\"foo\" + \"bar\""), "foobar");
}

#[test]
fn string_subtraction_names_the_operator() {
    let error = run_err("\"foo\" - \"bar\"");
    assert_eq!(
        error.report_string(),
        "failed to evaluate expression: `cannot perform `-` on string (1, 7)`"
    );
}

#[test]
fn parenthesized_grouping_changes_precedence() {
    assert_eq!(run_ok("(1 + 2) * 3"), "9");
}

#[test]
fn curly_grouping_works_like_parentheses() {
    assert_eq!(run_ok("{1 + 2} * 3"), "9");
}

#[test]
fn division_truncates_toward_zero() {
    assert_eq!(run_ok("8 / 3"), "2");
    assert_eq!(run_ok("(0 - 7) / 2"), "-3");
}

#[test]
fn division_by_zero_is_a_diagnostic() {
    let error = run_err("1 / 0");
    assert_eq!(
        error.report_string(),
        "failed to evaluate expression: `division by zero (1, 3)`"
    );
}

#[test]
fn unary_negation_and_complement() {
    assert_eq!(run_ok("-5"), "-5");
    assert_eq!(run_ok("!0"), "-1");
    assert_eq!(run_ok("--5"), "5");
}

#[test]
fn comparison_operators_are_not_supported_on_numbers() {
    let error = run_err("1 < 2");
    assert_eq!(
        error.report_string(),
        "failed to evaluate expression: `cannot perform `<` on i64 (1, 3)`"
    );
}

#[test]
fn unit_value_is_not_printable() {
    let error = run_err("()");
    assert_eq!(
        error.report_string(),
        "failed to evaluate expression: `invalid types`"
    );
}

#[test]
fn missing_close_is_one_unmatched_delimiter_at_the_opener() {
    let error = run_err("(1 + 2");
    match error {
        KonError::InterpreterErrors(errors) => {
            assert_eq!(errors.len(), 1);
            assert_eq!(errors[0].report_string(), "Unmatched `(` (1, 1)");
        }
        other => panic!("expected collected diagnostics, got `{}`", other.report_string()),
    }
}

#[test]
fn stray_closer_is_reported_and_parsing_resumes() {
    let error = run_err("1 + 2) + 3");
    match error {
        KonError::InterpreterErrors(errors) => {
            assert_eq!(errors.len(), 1);
            assert_eq!(errors[0].report_string(), "Unmatched `)` (1, 6)");
        }
        other => panic!("expected collected diagnostics, got `{}`", other.report_string()),
    }
}

#[test]
fn unterminated_string_is_positioned_at_end_of_input() {
    // The scan raises exactly one UnterminatedString; the parser then also
    // reports the invalid token it cannot use as an operand.
    let error = run_err("\"abc");
    match error {
        KonError::InterpreterErrors(errors) => {
            let unterminated: Vec<_> = errors
                .iter()
                .filter(|e| e.id() == InterpreterErrorDiscriminants::UnterminatedString)
                .collect();
            assert_eq!(unterminated.len(), 1);
            assert_eq!(unterminated[0].report_string(), "Unterminated string (1, 5)");
        }
        other => panic!("expected collected diagnostics, got `{}`", other.report_string()),
    }
}

#[test]
fn unknown_token_carries_the_character() {
    // The scan raises exactly one UnknownToken; the parser then also
    // reports the invalid token it cannot use as an operand.
    let error = run_err("@");
    match error {
        KonError::InterpreterErrors(errors) => {
            let unknown: Vec<_> = errors
                .iter()
                .filter(|e| e.id() == InterpreterErrorDiscriminants::UnknownToken)
                .collect();
            assert_eq!(unknown.len(), 1);
            assert_eq!(unknown[0].report_string(), "Unknown token `@` (1, 1)");
        }
        other => panic!("expected collected diagnostics, got `{}`", other.report_string()),
    }
}

#[test]
fn line_comment_is_skipped() {
    assert_eq!(run_ok("1 + 2 // the rest is ignored"), "3");
}

#[test]
fn newlines_between_operands() {
    assert_eq!(run_ok("1 +\n2"), "3");
}

#[test]
fn missing_operand_reports_the_previous_token() {
    let error = run_err("1 +");
    match error {
        KonError::InterpreterErrors(errors) => {
            assert_eq!(errors.len(), 1);
            assert_eq!(
                errors[0].report_string(),
                "Expected expression after `+` (1, 4)"
            );
        }
        other => panic!("expected collected diagnostics, got `{}`", other.report_string()),
    }
}

#[test]
fn trailing_tokens_are_a_diagnostic() {
    let error = run_err("1 2");
    match error {
        KonError::InterpreterErrors(errors) => {
            assert_eq!(errors.len(), 1);
            assert_eq!(errors[0].report_string(), "Expected EOF but got `2` (1, 3)");
        }
        other => panic!("expected collected diagnostics, got `{}`", other.report_string()),
    }
}

#[test]
fn overlong_number_is_a_syntax_error() {
    let error = run_err("99999999999999999999");
    match error {
        KonError::InterpreterErrors(errors) => {
            let syntax: Vec<_> = errors
                .iter()
                .filter(|e| e.id() == InterpreterErrorDiscriminants::SyntaxError)
                .collect();
            assert_eq!(syntax.len(), 1);
            assert_eq!(syntax[0].report_string(), "Failed to parse number (1, 1)");
        }
        other => panic!("expected collected diagnostics, got `{}`", other.report_string()),
    }
}

#[test]
fn largest_number_still_parses() {
    assert_eq!(run_ok("9223372036854775807"), "9223372036854775807");
}

#[test]
fn wrapping_addition_at_the_upper_bound() {
    assert_eq!(
        run_ok("9223372036854775807 + 1"),
        "-9223372036854775808"
    );
}

#[test]
fn tree_dump_is_kept_on_request() {
    let mut interpreter = Interpreter::new();
    interpreter.show_tree();
    let result = interpreter.run("1 + 2 * 3".to_string());
    assert_eq!(result.unwrap(), "7");
    let dump = interpreter.take_tree_dump().expect("a dump was requested");
    assert_eq!(
        dump,
        "Binary: +\n  Literal: 1\n  Binary: *\n    Literal: 2\n    Literal: 3\n"
    );
    assert!(interpreter.take_tree_dump().is_none());
}

#[test]
fn token_dump_is_kept_on_request() {
    let mut interpreter = Interpreter::new();
    interpreter.show_next_tokens();
    let result = interpreter.run("1 + 2".to_string());
    assert_eq!(result.unwrap(), "3");
    let tokens = interpreter.take_token_dump().expect("tokens were requested");
    assert_eq!(tokens.len(), 4);
    assert!(interpreter.take_token_dump().is_none());
}

#[test]
fn identifier_evaluates_to_its_text() {
    assert_eq!(run_ok("hello"), "hello");
}

#[test]
fn a_failed_run_does_not_poison_the_next_one() {
    let mut interpreter = Interpreter::new();
    assert!(interpreter.run("(1 + 2".to_string()).is_err());
    assert_eq!(interpreter.run("1 + 2".to_string()).unwrap(), "3");
}

#[test]
fn mixed_operands_name_the_left_type() {
    let error = run_err("1 + \"a\"");
    assert_eq!(
        error.report_string(),
        "failed to evaluate expression: `cannot perform `+` on i64 (1, 3)`"
    );
}

#[test]
fn empty_input_is_a_parse_error() {
    let error = run_err("");
    match error {
        KonError::InterpreterErrors(errors) => {
            assert_eq!(errors.len(), 1);
            assert_eq!(errors[0].id(), InterpreterErrorDiscriminants::ParseError);
        }
        other => panic!("expected collected diagnostics, got `{}`", other.report_string()),
    }
}
