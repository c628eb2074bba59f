use phoenix::errors::ErrorKind;
use phoenix::lexer::Lexer;
use phoenix::run;
use phoenix::token::Token;
use phoenix::types::{Float, Integer, Type};

fn eval(src: &str) -> Result<Type, phoenix::errors::Error> {
    run(src.to_string(), "\"<test>\"".to_string(), None).res
}

fn value(r: Result<Type, phoenix::errors::Error>) -> Type {
    match r {
        Ok(t) => t,
        Err(e) => panic!("{}", e.to_display_string()),
    }
}

fn failure(r: Result<Type, phoenix::errors::Error>) -> phoenix::errors::Error {
    match r {
        Ok(_) => panic!("expected an error"),
        Err(e) => e,
    }
}

fn integer(v: i64) -> Type {
    Type::Integer(Integer::new(v))
}

fn float(v: f64) -> Type {
    Type::Float(Float::new(v.to_bits()))
}

#[test]
fn arithmetic_division_truncates() {
    assert_eq!(value(eval("10 / 3")), integer(3));
    assert_eq!(value(eval("0 - 10 / 3")), integer(-3));
    assert_eq!(value(eval("(0 - 7) / 2")), integer(-3));
    assert_eq!(value(eval("7 / (0 - 2)")), integer(-3));
}

#[test]
fn division_by_zero_fails() {
    let e = failure(eval("5 / 0"));
    assert_eq!(e.get_kind(), ErrorKind::ZeroDivision);
    assert_eq!(e.get_message(), "can't divide by 0");
}

#[test]
fn mixed_numeric_kinds_are_a_type_error() {
    let e = failure(eval("1 + 1.0"));
    assert_eq!(e.get_kind(), ErrorKind::TypeError);
}

#[test]
fn environment_persists_across_runs() {
    let first = run("let x = 5".to_string(), "\"<test>\"".to_string(), None);
    assert_eq!(value(first.res), integer(5));
    let second = run("x + 1".to_string(), "\"<test>\"".to_string(), Some(first.stack));
    assert_eq!(value(second.res), integer(6));
}

#[test]
fn unbound_name_is_a_name_error() {
    let e = failure(eval("y"));
    assert_eq!(e.get_kind(), ErrorKind::NameError);
    assert_eq!(e.get_message(), "y is not defined");
}

#[test]
fn logical_operators_do_not_short_circuit() {
    let e = failure(eval("0 && (1/0)"));
    assert_eq!(e.get_kind(), ErrorKind::ZeroDivision);
}

#[test]
fn if_takes_first_true_case() {
    assert_eq!(value(eval("if 0 then 1 else 2")), integer(2));
    assert_eq!(value(eval("if 1 then 1 elif 1 then 99 else 2")), integer(1));
    assert_eq!(value(eval("if 0 then 1 elif 1 then 99 else 2")), integer(99));
}

#[test]
fn if_without_match_and_without_else_gives_none() {
    assert_eq!(value(eval("if 0 then 1")), Type::none());
}

#[test]
fn for_loop_end_bound_is_exclusive() {
    let seeded = run("let x = 0".to_string(), "\"<test>\"".to_string(), None);
    let first = run(
        "for i in 1 to 4 then let x = x + i".to_string(),
        "\"<test>\"".to_string(),
        Some(seeded.stack),
    );
    assert!(first.res.is_ok());
    let second = run("x".to_string(), "\"<test>\"".to_string(), Some(first.stack));
    assert_eq!(value(second.res), integer(6));
}

#[test]
fn for_loop_with_empty_range_never_runs() {
    let seeded = run("let x = 0".to_string(), "\"<test>\"".to_string(), None);
    let first = run(
        "for i in 4 to 4 then let x = x + i".to_string(),
        "\"<test>\"".to_string(),
        Some(seeded.stack),
    );
    assert!(first.res.is_ok());
    let second = run("x".to_string(), "\"<test>\"".to_string(), Some(first.stack));
    assert_eq!(value(second.res), integer(0));
}

#[test]
fn while_loop_counts_down() {
    let seeded = run("let x = 5".to_string(), "\"<test>\"".to_string(), None);
    let first = run(
        "while x > 0 then let x = x - 1".to_string(),
        "\"<test>\"".to_string(),
        Some(seeded.stack),
    );
    assert!(first.res.is_ok());
    let second = run("x".to_string(), "\"<test>\"".to_string(), Some(first.stack));
    assert_eq!(value(second.res), integer(0));
}

#[test]
fn illegal_character_names_the_character_and_place() {
    let mut lexer = Lexer::new("1 $ 2".to_string(), "f".to_string());
    let e = match lexer.make_tokens() {
        Ok(_) => panic!("expected an error"),
        Err(e) => e,
    };
    assert_eq!(e.get_kind(), ErrorKind::SyntaxError);
    assert_eq!(e.get_message(), "Illegal character: $");
    let pos = e.position.as_ref().unwrap();
    assert_eq!(pos.line, 0);
    assert_eq!(pos.column, 2);
    assert_eq!(pos.index, 2);
}

#[test]
fn lexer_produces_tokens_with_terminal_eof() {
    let mut lexer = Lexer::new("1 + 2".to_string(), "f".to_string());
    let toks = match lexer.make_tokens() {
        Ok(t) => t,
        Err(_) => panic!("expected tokens"),
    };
    assert_eq!(toks.len(), 4);
    assert!(matches!(toks[0].0, Token::Type(Type::Integer(v)) if v.value == 1));
    assert!(matches!(toks[1].0, Token::Plus));
    assert!(matches!(toks[2].0, Token::Type(Type::Integer(v)) if v.value == 2));
    assert!(matches!(toks[3].0, Token::EOF));
}

#[test]
fn two_character_operators_lex_as_one_token() {
    let mut lexer = Lexer::new("<= >= == != && ||".to_string(), "f".to_string());
    let toks = match lexer.make_tokens() {
        Ok(t) => t,
        Err(_) => panic!("expected tokens"),
    };
    assert!(matches!(toks[0].0, Token::LessThanEq));
    assert!(matches!(toks[1].0, Token::GreaterThanEq));
    assert!(matches!(toks[2].0, Token::DoubleEqual));
    assert!(matches!(toks[3].0, Token::NonEqual));
    assert!(matches!(toks[4].0, Token::DoubleAnd));
    assert!(matches!(toks[5].0, Token::DoubleOr));
}

#[test]
fn lone_ampersand_is_rejected() {
    let mut lexer = Lexer::new("1 & 2".to_string(), "f".to_string());
    let e = match lexer.make_tokens() {
        Ok(_) => panic!("expected an error"),
        Err(e) => e,
    };
    assert_eq!(e.get_kind(), ErrorKind::SyntaxError);
    assert_eq!(e.get_message(), "expected &");
}

#[test]
fn lone_bar_is_rejected() {
    let mut lexer = Lexer::new("1 | 2".to_string(), "f".to_string());
    let e = match lexer.make_tokens() {
        Ok(_) => panic!("expected an error"),
        Err(e) => e,
    };
    assert_eq!(e.get_kind(), ErrorKind::SyntaxError);
    assert_eq!(e.get_message(), "expected |");
}

#[test]
fn float_arithmetic_follows_ieee_754() {
    assert_eq!(value(eval("1.5 + 2.25")), float(3.75));
    assert_eq!(value(eval("1.5 * 2.0")), float(3.0));
    assert_eq!(value(eval("3.0 / 2.0")), float(1.5));
    assert_eq!(value(eval("0.1 + 0.2")), float(0.1 + 0.2));
}

#[test]
fn float_division_by_zero_fails() {
    let e = failure(eval("1.0 / 0.0"));
    assert_eq!(e.get_kind(), ErrorKind::ZeroDivision);
}

#[test]
fn comparisons_yield_integer_booleans() {
    assert_eq!(value(eval("1 < 2")), integer(1));
    assert_eq!(value(eval("2 < 1")), integer(0));
    assert_eq!(value(eval("2 <= 2")), integer(1));
    assert_eq!(value(eval("2 == 2")), integer(1));
    assert_eq!(value(eval("2 != 2")), integer(0));
    assert_eq!(value(eval("1.5 < 2.5")), integer(1));
}

#[test]
fn precedence_binds_products_before_sums() {
    assert_eq!(value(eval("1 + 2 * 3")), integer(7));
    assert_eq!(value(eval("(1 + 2) * 3")), integer(9));
    assert_eq!(value(eval("{1 + 2} * 3")), integer(9));
}

#[test]
fn unary_operators_apply() {
    assert_eq!(value(eval("-3 + 5")), integer(2));
    assert_eq!(value(eval("+3")), integer(3));
    assert_eq!(value(eval("!0")), integer(1));
    assert_eq!(value(eval("!7")), integer(0));
}

#[test]
fn builtins_are_seeded() {
    assert_eq!(value(eval("true")), integer(1));
    assert_eq!(value(eval("false")), integer(0));
    assert_eq!(value(eval("null")), integer(0));
}

#[test]
fn assignment_returns_the_value() {
    assert_eq!(value(eval("let x = 41 + 1")), integer(42));
}

#[test]
fn missing_then_is_a_syntax_error() {
    let e = failure(eval("if 1 2"));
    assert_eq!(e.get_kind(), ErrorKind::SyntaxError);
    assert_eq!(e.get_message(), "expected then");
}

#[test]
fn missing_for_keywords_are_distinct_errors() {
    let e = failure(eval("for 1 in 1 to 2 then 3"));
    assert_eq!(e.get_message(), "expected ident");
    let e = failure(eval("for i 1 to 2 then 3"));
    assert_eq!(e.get_message(), "expected 'in'");
    let e = failure(eval("for i in 1 2 then 3"));
    assert_eq!(e.get_message(), "expected 'to'");
    let e = failure(eval("for i in 1 to 2 3"));
    assert_eq!(e.get_message(), "expected 'then'");
}

#[test]
fn trailing_tokens_are_a_syntax_error() {
    let e = failure(eval("1 2"));
    assert_eq!(e.get_kind(), ErrorKind::SyntaxError);
    assert_eq!(
        e.get_message(),
        "Expected one of the following: '+' '-' '*' or '/'"
    );
}

#[test]
fn bare_end_of_input_is_end_of_file() {
    let e = failure(eval("1 +"));
    assert_eq!(e.get_kind(), ErrorKind::EndOfFile);
}

#[test]
fn numbers_render_back_to_decimal() {
    assert_eq!(phoenix::render::u64_to_string(0), "0");
    assert_eq!(phoenix::render::u64_to_string(90210), "90210");
    assert_eq!(phoenix::render::i64_to_string(-42), "-42");
    assert_eq!(phoenix::render::i64_to_string(i64::MIN), "-9223372036854775808");
}

#[test]
fn keywords_are_recognized() {
    assert!(phoenix::keyword::is_keyword("while".to_string()));
    assert!(!phoenix::keyword::is_keyword("whale".to_string()));
    assert_eq!(phoenix::keyword::keywords().len(), 9);
}

#[test]
fn comparing_none_is_unimplemented() {
    let e = failure(eval("(if 0 then 1) == 2"));
    assert_eq!(e.get_kind(), ErrorKind::Unimplemented);
    assert_eq!(e.get_message(), "can't compare None");
}

#[test]
fn error_rendering_includes_kind_and_message() {
    let e = failure(eval("5 / 0"));
    let shown = e.to_display_string();
    assert!(shown.contains("ZeroDivision: can't divide by 0"));
    assert!(shown.starts_with("ERROR - Traceback:"));
}

#[test]
fn evaluation_error_keeps_completed_mutations() {
    let r = run(
        "for i in 1 to 5 then {let x = i} / {if i - 2 then 1 else 0}".to_string(),
        "f".to_string(),
        None,
    );
    let e = failure(r.res);
    assert_eq!(e.get_kind(), ErrorKind::ZeroDivision);
    // The assignment completed in the first iteration survives into the
    // returned environment, and the loop variable shows how far the loop
    // came; a pre-evaluation snapshot would hold neither.
    let i = run("i".to_string(), "f".to_string(), Some(r.stack.clone()));
    assert_eq!(value(i.res), integer(2));
    let x = run("x".to_string(), "f".to_string(), Some(r.stack));
    assert_eq!(value(x.res), integer(1));
}

#[test]
fn error_rendering_formats_the_traceback_lines() {
    let e = failure(eval("1 + 1.0"));
    let shown = e.to_display_string();
    assert!(shown.starts_with("ERROR - Traceback:\n  File \"<test>\", line 1, column "));
    assert!(shown.ends_with("TypeError: No valid type"));
}

#[test]
fn integer_literal_too_large_is_rejected() {
    let e = failure(eval("9223372036854775808"));
    assert_eq!(e.get_kind(), ErrorKind::SyntaxError);
    assert_eq!(e.get_message(), "invalid number literal");
}
