use phoenix::ast::Parser;
use phoenix::lexer::Lexer;
use phoenix::nodes::Node;
use phoenix::run;
use phoenix::types::Type;

fn parse(src: &str) -> Node {
    let mut lexer = Lexer::new(src.to_string(), "f".to_string());
    let toks = match lexer.make_tokens() {
        Ok(t) => t,
        Err(e) => panic!("{}", e.to_display_string()),
    };
    let mut parser = Parser::new(toks);
    match parser.parse() {
        Ok(n) => n,
        Err(e) => panic!("{}", e.to_display_string()),
    }
}

fn value(src: &str) -> Type {
    match run(src.to_string(), "f".to_string(), None).res {
        Ok(t) => t,
        Err(e) => panic!("{}", e.to_display_string()),
    }
}

#[test]
fn printing_round_trips_through_the_pipeline() {
    let sources = [
        "1 + 2 * 3",
        "(1 + 2) * 3",
        "-2 * 3",
        "10 / 3",
        "1.5 + 2.25",
        "if 0 then 1 elif 1 then 99 else 2",
        "if 0 then 1",
        "while 0 then 1",
        "let x = 41 + 1",
        "!0 && 1",
        "1 <= 2",
    ];
    for src in sources {
        let printed = parse(src).display_string();
        assert_eq!(value(&printed), value(src), "round trip of {}", src);
    }
}

#[test]
fn printed_if_shows_each_condition_before_its_body() {
    let printed = parse("if 0 then 1 elif 1 then 99 else 2").display_string();
    assert_eq!(printed, "if 0 then 1 elif 1 then 99 else 2");
}

#[test]
fn printed_binary_operations_carry_grouping() {
    assert_eq!(parse("1 + 2 * 3").display_string(), "(1+(2*3))");
    assert_eq!(parse("(1 + 2) * 3").display_string(), "((1+2)*3)");
}

#[test]
fn printed_assignment_and_loops_reparse() {
    assert_eq!(
        parse("for i in 1 to 4 then let x = x + i").display_string(),
        "for i in 1 to 4 then let x = (x+i)"
    );
    assert_eq!(
        parse("while x > 0 then let x = x - 1").display_string(),
        "while (x>0) then let x = (x-1)"
    );
    assert_eq!(parse("let y = 5").display_string(), "let y = 5");
}

#[test]
fn printed_unary_operation_keeps_its_sign() {
    assert_eq!(parse("-2 * 3").display_string(), "(((-2))*3)");
}

#[test]
fn printed_float_literal_reparses() {
    let printed = parse("0.5 + 0.25").display_string();
    assert_eq!(value(&printed), value("0.5 + 0.25"));
}
