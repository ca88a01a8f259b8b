use rust_monkey::ast::{Expr, Ident, Infix, Prefix, Stmt};
use rust_monkey::environment::Environment;
use rust_monkey::evaluator::Evaluator;
use rust_monkey::lexer::Lexer;
use rust_monkey::object::Object;
use rust_monkey::parser::Parser;
use rust_monkey::printer::{expr_to_text, program_to_text};
use rust_monkey::token::Token;

fn parse(src: &str) -> (Vec<Stmt>, Vec<String>) {
    let mut parser = Parser::new(Lexer::new(src));
    let program = parser.parse_program();
    (program, parser.errors())
}

fn run(src: &str) -> Option<Object> {
    let (program, errors) = parse(src);
    assert!(errors.is_empty(), "parse errors: {:?}", errors);
    let mut evaluator = Evaluator::new(Environment::new());
    evaluator.eval(program)
}

fn tokens(src: &str) -> Vec<Token> {
    let mut lexer = Lexer::new(src);
    let mut out = Vec::new();
    loop {
        let t = lexer.next_token();
        let end = t == Token::EOF;
        out.push(t);
        if end {
            return out;
        }
    }
}

fn ident(s: &str) -> Box<Expr> {
    Box::new(Expr::Ident(Ident(s.to_string())))
}

fn error(msg: &str) -> Option<Object> {
    Some(Object::Error(msg.to_string()))
}

#[test]
fn let_arithmetic() {
    assert_eq!(run("let x = 5 * 5 + 10; x;"), Some(Object::Int(35)));
}

#[test]
fn nested_if_return() {
    assert_eq!(
        run("if (10 > 1) { if (10 > 1) { return 10; } return 1; }"),
        Some(Object::Int(10))
    );
}

#[test]
fn closure_adder() {
    assert_eq!(
        run("let newAdder = fn(x) { fn(y) { x + y } }; let addTwo = newAdder(2); addTwo(3);"),
        Some(Object::Int(5))
    );
}

#[test]
fn digits_end_an_identifier() {
    assert_eq!(
        tokens("add2"),
        vec![Token::IDENT("add".to_string()), Token::INT(2), Token::EOF]
    );
}

#[test]
fn type_mismatch_error() {
    assert_eq!(run("5 + true;"), error("type mismatch: INT + BOOL"));
}

#[test]
fn identifier_not_found_error() {
    assert_eq!(run("foobar;"), error("identifier not found: foobar"));
}

#[test]
fn string_concatenation() {
    assert_eq!(
        run("\"Hello\" + \" \" + \"World\""),
        Some(Object::String("Hello World".to_string()))
    );
}

#[test]
fn precedence_product_binds_tighter() {
    let (program, errors) = parse("a + b * c");
    assert!(errors.is_empty());
    assert_eq!(
        program,
        vec![Stmt::Expr(Expr::Infix(
            Infix::Plus,
            ident("a"),
            Box::new(Expr::Infix(Infix::Asterisk, ident("b"), ident("c"))),
        ))]
    );
}

#[test]
fn precedence_comparison_binds_tighter_than_equality() {
    let (program, errors) = parse("a == b < c");
    assert!(errors.is_empty());
    assert_eq!(
        program,
        vec![Stmt::Expr(Expr::Infix(
            Infix::Eq,
            ident("a"),
            Box::new(Expr::Infix(Infix::Lt, ident("b"), ident("c"))),
        ))]
    );
}

#[test]
fn subtraction_is_left_associative() {
    let (program, errors) = parse("a - b - c");
    assert!(errors.is_empty());
    assert_eq!(
        program,
        vec![Stmt::Expr(Expr::Infix(
            Infix::Minus,
            Box::new(Expr::Infix(Infix::Minus, ident("a"), ident("b"))),
            ident("c"),
        ))]
    );
}

#[test]
fn prefix_and_call_parse() {
    let (program, errors) = parse("-f(1, x)");
    assert!(errors.is_empty());
    assert_eq!(
        program,
        vec![Stmt::Expr(Expr::Prefix(
            Prefix::Minus,
            Box::new(Expr::Call(ident("f"), vec![Expr::Int(1), Expr::Ident(Ident("x".to_string()))])),
        ))]
    );
}

#[test]
fn double_bang_is_truthiness() {
    assert_eq!(run("!!5"), Some(Object::Bool(true)));
    assert_eq!(run("!!0"), Some(Object::Bool(true)));
    assert_eq!(run("!!\"\""), Some(Object::Bool(true)));
    assert_eq!(run("!!false"), Some(Object::Bool(false)));
    assert_eq!(run("!!true"), Some(Object::Bool(true)));
    assert_eq!(run("!!if (false) { 1 }"), Some(Object::Bool(false)));
}

#[test]
fn name_free_expression_is_repeatable() {
    let mut evaluator = Evaluator::new(Environment::new());
    let first = evaluator.eval(parse("(1 + 2) * 3 - 4 / 2 == 7").0);
    let second = evaluator.eval(parse("(1 + 2) * 3 - 4 / 2 == 7").0);
    assert_eq!(first, Some(Object::Bool(true)));
    assert_eq!(first, second);
}

#[test]
fn closure_sees_later_binding_in_same_frame() {
    assert_eq!(run("let x = 1; let f = fn() { x }; let x = 2; f();"), Some(Object::Int(2)));
}

#[test]
fn closure_ignores_binding_when_shadowed() {
    assert_eq!(
        run("let x = 1; let g = fn() { let x = 5; fn() { x } }; let h = g(); let x = 2; h();"),
        Some(Object::Int(5))
    );
}

#[test]
fn return_unwinds_to_function_boundary() {
    assert_eq!(
        run("let f = fn() { if (true) { if (true) { return 1; } } 2 }; f() + 10"),
        Some(Object::Int(11))
    );
}

#[test]
fn recursion_through_root_frame() {
    assert_eq!(
        run("let fib = fn(n) { if (n < 2) { n } else { fib(n - 1) + fib(n - 2) } }; fib(15)"),
        Some(Object::Int(610))
    );
}

#[test]
fn environment_persists_across_programs() {
    let mut evaluator = Evaluator::new(Environment::new());
    assert_eq!(evaluator.eval(parse("let a = 7;").0), None);
    assert_eq!(evaluator.eval(parse("a * 6").0), Some(Object::Int(42)));
}

#[test]
fn unknown_operator_errors() {
    assert_eq!(run("-true"), error("unknown operator: - BOOL"));
    assert_eq!(run("true + false"), error("unknown operator: BOOL + BOOL"));
    assert_eq!(run("\"a\" - \"b\""), error("unknown operator: STRING - STRING"));
}

#[test]
fn call_errors() {
    assert_eq!(run("5(1)"), error("5 is not valid function"));
    assert_eq!(run("fn(x) { x }()"), error("wrong number of arguments: 1 expected but 0 given"));
    assert_eq!(run("fn() { 1 }(2, 3)"), error("wrong number of arguments: 0 expected but 2 given"));
}

#[test]
fn arithmetic_errors() {
    assert_eq!(run("1 / 0"), error("division by zero"));
    assert_eq!(run("9223372036854775807 + 1"), error("integer overflow"));
    assert_eq!(run("-7 / 2"), Some(Object::Int(-3)));
}

#[test]
fn call_depth_is_bounded() {
    let (program, errors) = parse("let f = fn(n) { f(n) }; f(1)");
    assert!(errors.is_empty());
    let mut evaluator = Evaluator::with_max_depth(Environment::new(), 50);
    assert_eq!(evaluator.eval(program), error("call depth exceeded"));
}

#[test]
fn deep_recursion_counts_down() {
    assert_eq!(
        run("let count = fn(n) { if (n == 0) { 0 } else { count(n - 1) } }; count(200)"),
        Some(Object::Int(0))
    );
}

#[test]
fn nested_return_leaves_program_unwrapped() {
    assert_eq!(run("return if (true) { return 1; };"), Some(Object::Int(1)));
    assert_eq!(
        run("let f = fn() { return if (true) { return 1; }; 5 }; f() + 1"),
        Some(Object::Int(2))
    );
    assert_eq!(
        run("let f = fn() { let x = if (true) { return 3; }; 9 }; f()"),
        Some(Object::Int(3))
    );
}

#[test]
fn same_type_operands_give_unknown_operator() {
    assert_eq!(
        run("if (false) { 1 } + if (false) { 1 }"),
        error("unknown operator: NULL + NULL")
    );
    assert_eq!(run("fn() { 1 } == fn() { 1 }"), error("unknown operator: FUNCTION == FUNCTION"));
    assert_eq!(run("if (false) { 1 } + 1"), error("type mismatch: NULL + INT"));
}

#[test]
fn lexer_nul_inside_input_is_illegal() {
    assert_eq!(
        tokens("\u{0}a \"x\u{0}y\""),
        vec![
            Token::ILLEGAL,
            Token::IDENT("a".to_string()),
            Token::STRING("x\u{0}y".to_string()),
            Token::EOF,
        ]
    );
}

#[test]
fn illegal_number_parse_error() {
    let (_, errors) = parse("99999999999999999999 + 1");
    assert_eq!(errors[0], "illegal number: 99999999999999999999");
}

#[test]
fn error_stops_program() {
    assert_eq!(run("let a = 1; a + true; a"), error("type mismatch: INT + BOOL"));
    assert_eq!(run("if (1 > 0) { x } else { 2 }"), error("identifier not found: x"));
}

#[test]
fn string_comparisons() {
    assert_eq!(run("\"a\" == \"a\""), Some(Object::Bool(true)));
    assert_eq!(run("\"a\" != \"b\""), Some(Object::Bool(true)));
    assert_eq!(run("if (false) { 1 }"), Some(Object::Null));
}

#[test]
fn let_without_value_prints_nothing() {
    assert_eq!(run("let x = 3;"), None);
}

#[test]
fn parse_error_messages() {
    let (_, errors) = parse("let = 5;");
    assert_eq!(
        errors,
        vec![
            "expected next token to be IDENT, got = instead".to_string(),
            "no prefix parse function for = found".to_string(),
        ]
    );
    let (_, errors) = parse("let x 5;");
    assert_eq!(errors[0], "expected next token to be =, got 5 instead");
    let (_, errors) = parse("f(1,)");
    assert_eq!(errors[0], "no prefix parse function for ) found");
    let (_, errors) = parse("if (x) { 1");
    assert_eq!(errors, vec!["expected next token to be }, got EOF instead".to_string()]);
}

#[test]
fn lexer_two_identifiers() {
    assert_eq!(
        tokens("a b"),
        vec![Token::IDENT("a".to_string()), Token::IDENT("b".to_string()), Token::EOF]
    );
}

#[test]
fn lexer_operators_and_keywords() {
    assert_eq!(
        tokens("let five = fn(x) { x == 5 != !true; } else return false if < > / * - + ,"),
        vec![
            Token::LET,
            Token::IDENT("five".to_string()),
            Token::ASSIGN,
            Token::FUNCTION,
            Token::LPAREN,
            Token::IDENT("x".to_string()),
            Token::RPAREN,
            Token::LBRACE,
            Token::IDENT("x".to_string()),
            Token::EQ,
            Token::INT(5),
            Token::NE,
            Token::BANG,
            Token::BOOL(true),
            Token::SEMICOLON,
            Token::RBRACE,
            Token::ELSE,
            Token::RETURN,
            Token::BOOL(false),
            Token::IF,
            Token::LT,
            Token::GT,
            Token::SLASH,
            Token::ASTERISK,
            Token::MINUS,
            Token::PLUS,
            Token::COMMA,
            Token::EOF,
        ]
    );
}

#[test]
fn lexer_strings_numbers_and_illegal() {
    assert_eq!(
        tokens("\"hi there\" 12 @ 99999999999999999999 \"open"),
        vec![
            Token::STRING("hi there".to_string()),
            Token::INT(12),
            Token::ILLEGAL,
            Token::ILLEGAL_NUMBER("99999999999999999999".to_string()),
            Token::STRING("open".to_string()),
            Token::EOF,
        ]
    );
}

#[test]
fn lexer_eof_is_stable() {
    let mut lexer = Lexer::new("  ");
    assert_eq!(lexer.next_token(), Token::EOF);
    assert_eq!(lexer.next_token(), Token::EOF);
    let mut lexer = Lexer::new("x");
    assert_eq!(lexer.next_token(), Token::IDENT("x".to_string()));
    assert_eq!(lexer.next_token(), Token::EOF);
    assert_eq!(lexer.next_token(), Token::EOF);
}

#[test]
fn token_text() {
    assert_eq!(Token::INT(-5).text(), "-5");
    assert_eq!(Token::LBRACE.text(), "{");
    assert_eq!(Token::IDENT("abc".to_string()).text(), "abc");
    assert_eq!(Token::BOOL(false).text(), "false");
}

#[test]
fn object_types_and_text() {
    assert_eq!(Object::Int(3).get_type(), "INT");
    assert_eq!(Object::Null.get_type(), "NULL");
    assert_eq!(Object::String("s".to_string()).get_type(), "STRING");
    assert_eq!(Object::Int(-12).text(), "-12");
    assert_eq!(Object::Null.text(), "null");
    assert_eq!(Object::Bool(true).text(), "true");
    assert_eq!(Object::Return(Box::new(Object::Int(4))).text(), "4");
}

#[test]
fn environment_get_and_set() {
    let mut env = Environment::new();
    assert_eq!(env.get("a".to_string()), None);
    env.set("a".to_string(), &Object::Int(1));
    env.set("a".to_string(), &Object::Int(2));
    assert_eq!(env.get("a".to_string()), Some(Object::Int(2)));
    let mut evaluator = Evaluator::new(env);
    assert_eq!(evaluator.eval(parse("a + 1").0), Some(Object::Int(3)));
}

#[test]
fn function_value_prints_as_function() {
    let value = run("fn(x) { x }").unwrap();
    assert_eq!(value.get_type(), "FUNCTION");
    assert_eq!(value.text(), "function");
}

fn round_trip(src: &str) {
    let (first, errors) = parse(src);
    assert!(errors.is_empty(), "parse errors: {:?}", errors);
    let text = program_to_text(&first);
    let (second, errors) = parse(&text);
    assert!(errors.is_empty(), "parse errors in {:?}: {:?}", text, errors);
    assert_eq!(first, second, "printed as {:?}", text);
}

#[test]
fn printed_program_parses_back() {
    round_trip("let x = 5 * 5 + 10; x;");
    round_trip("if (10 > 1) { if (10 > 1) { return 10; } return 1; }");
    round_trip("let newAdder = fn(x) { fn(y) { x + y } }; let addTwo = newAdder(2); addTwo(3);");
    round_trip("-a * !b == (c - d) / e != f < g");
    round_trip("fn(a, b) { a }(1, \"two\", true) if (x) { 1 } else { let y = 2; y }");
    round_trip("f()(g(h(1)))");
}

#[test]
fn printer_output() {
    let (program, _) = parse("a + b * c; let x = -1; return f(x, \"s\");");
    assert_eq!(program_to_text(&program), "(a + (b * c)); let x = (-1); return f(x, \"s\"); ");
    assert_eq!(
        expr_to_text(&Expr::If(
            Box::new(Expr::Bool(true)),
            vec![Stmt::Expr(Expr::Int(1))],
            Some(vec![])
        )),
        "if (true) { 1; } else { }"
    );
}
