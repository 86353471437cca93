use codespan::{FileId, Files};
use tre::ast::{BinaryOperation, Expr, ExprKind, Literal, UnaryOperation};
use tre::{Interpreter, LexError, Parser, RuntimeError, Span, SyntaxError, TokenType, Value, ValueKind};

fn file_of(files: &mut Files<String>, source: &str) -> FileId {
    files.add("test", source.to_string())
}

fn parse(source: &str) -> Result<Expr, SyntaxError> {
    let mut files = Files::new();
    let file = file_of(&mut files, source);
    let mut parser = Parser::new(source, file);
    parser.next_expression()
}

fn eval(source: &str) -> Result<Value, RuntimeError> {
    let mut files = Files::new();
    let file = file_of(&mut files, source);
    let expr = Parser::new(source, file).next_expression().expect("parse error");
    Interpreter::new(file).visit_expr(&expr)
}

fn op_text(op: &BinaryOperation) -> &'static str {
    match op {
        BinaryOperation::Plus => "+",
        BinaryOperation::Minus => "-",
        BinaryOperation::Mul => "*",
        BinaryOperation::Div => "/",
        BinaryOperation::NotEqual => "!=",
        BinaryOperation::EqualEqual => "==",
        BinaryOperation::Less => "<",
        BinaryOperation::LessEqual => "<=",
        BinaryOperation::Greater => ">",
        BinaryOperation::GreaterEqual => ">=",
    }
}

/// The shape of a tree, without spans, as an s-expression.
fn shape(e: &Expr) -> String {
    match &e.0 {
        ExprKind::Literal(Literal::Int(x)) => format!("{}", x),
        ExprKind::Literal(Literal::String(s)) => format!("{:?}", s),
        ExprKind::Literal(Literal::Bool(b)) => format!("{}", b),
        ExprKind::Binary { left, op, right } => {
            format!("({} {} {})", op_text(op), shape(left), shape(right))
        }
        ExprKind::Unary { op: UnaryOperation::Negate, expr } => format!("(neg {})", shape(expr)),
        ExprKind::Unary { op: UnaryOperation::Not, expr } => format!("(not {})", shape(expr)),
        ExprKind::Grouping(inner) => format!("[{}]", shape(inner)),
        ExprKind::Call { .. } => "call".to_string(),
        ExprKind::Variable(_) => "var".to_string(),
    }
}

#[test]
fn multiplication_binds_tighter_than_addition() {
    assert_eq!(shape(&parse("1 + 2 * 3").unwrap()), "(+ 1 (* 2 3))");
    assert_eq!(shape(&parse("1 * 2 + 3").unwrap()), "(+ (* 1 2) 3)");
    assert_eq!(eval("1 + 2 * 3"), Ok(Value::Int(7)));
}

#[test]
fn same_level_operators_associate_left() {
    assert_eq!(shape(&parse("1 - 2 - 3").unwrap()), "(- (- 1 2) 3)");
    assert_eq!(eval("1 - 2 - 3"), Ok(Value::Int(-4)));
    assert_eq!(eval("8 / 2 / 2"), Ok(Value::Int(2)));
}

#[test]
fn unary_operators_nest() {
    let e = parse("--5").unwrap();
    assert_eq!(shape(&e), "(neg (neg 5))");
    assert_eq!(e.span(), Span::new(0, 3));
    assert_eq!(eval("--5"), Ok(Value::Int(5)));
    assert_eq!(eval("!!true"), Ok(Value::Bool(true)));
    assert_eq!(eval("!(1 < 2)"), Ok(Value::Bool(false)));
}

#[test]
fn grouping_overrides_precedence() {
    let e = parse("(1 + 2) * 3").unwrap();
    assert_eq!(shape(&e), "(* [(+ 1 2)] 3)");
    assert_eq!(eval("(1 + 2) * 3"), Ok(Value::Int(9)));
}

#[test]
fn spans_cover_what_was_read() {
    let e = parse("(1 + 2) * 3").unwrap();
    assert_eq!(e.span(), Span::new(0, 11));
    match &e.0 {
        ExprKind::Binary { left, right, .. } => {
            assert_eq!(left.span(), Span::new(0, 7));
            assert_eq!(right.span(), Span::new(10, 11));
        }
        _ => panic!("expected a binary expression"),
    }
}

#[test]
fn type_mismatch_names_the_operand() {
    assert_eq!(
        eval("1 + true"),
        Err(RuntimeError::TypeMismatch {
            expected: ValueKind::Int,
            found: ValueKind::Bool,
            span: Span::new(4, 8),
        })
    );
    match eval("1 + true") {
        Err(RuntimeError::TypeMismatch { expected, span, .. }) => {
            assert_eq!(expected.name(), "int");
            assert_eq!(span.index("1 + true"), "true");
        }
        other => panic!("unexpected {:?}", other),
    }
    assert_eq!(
        eval("!3"),
        Err(RuntimeError::TypeMismatch {
            expected: ValueKind::Bool,
            found: ValueKind::Int,
            span: Span::new(1, 2),
        })
    );
    assert_eq!(
        eval("-\"a\""),
        Err(RuntimeError::TypeMismatch {
            expected: ValueKind::Int,
            found: ValueKind::String,
            span: Span::new(2, 3),
        })
    );
}

#[test]
fn division_truncates_and_reports_zero() {
    assert_eq!(eval("7 / 2"), Ok(Value::Int(3)));
    assert_eq!(eval("-7 / 2"), Ok(Value::Int(-3)));
    assert_eq!(eval("7 / -2"), Ok(Value::Int(-3)));
    assert_eq!(eval("7 / 0"), Err(RuntimeError::DivideByZero { span: Span::new(0, 5) }));
}

#[test]
fn overflow_is_an_error() {
    assert_eq!(
        eval("9223372036854775807 + 1"),
        Err(RuntimeError::Overflow { span: Span::new(0, 23) })
    );
    assert_eq!(
        eval("-9223372036854775807 - 1"),
        Ok(Value::Int(i64::MIN))
    );
    assert_eq!(
        eval("(-9223372036854775807 - 1) / -1"),
        Err(RuntimeError::Overflow { span: Span::new(0, 31) })
    );
}

#[test]
fn comparisons_and_equality() {
    assert_eq!(eval("1 < 2"), Ok(Value::Bool(true)));
    assert_eq!(eval("2 <= 1"), Ok(Value::Bool(false)));
    assert_eq!(eval("3 >= 3"), Ok(Value::Bool(true)));
    assert_eq!(eval("3 > 4"), Ok(Value::Bool(false)));
    assert_eq!(eval("1 + 1 == 2"), Ok(Value::Bool(true)));
    assert_eq!(eval("1 != 1"), Ok(Value::Bool(false)));
    assert_eq!(shape(&parse("1 < 2 == 3 > 4").unwrap()), "(== (< 1 2) (> 3 4))");
}

#[test]
fn literals_evaluate_to_themselves() {
    assert_eq!(eval("\"hi there\""), Ok(Value::String("hi there".to_string())));
    assert_eq!(eval("false"), Ok(Value::Bool(false)));
    assert_eq!(eval("1_000"), Ok(Value::Int(1000)));
    assert_eq!(shape(&parse("\"a\\\"b\"").unwrap()), "\"a\\\\\\\"b\"");
}

#[test]
fn integer_literals_must_fit() {
    assert_eq!(eval("9223372036854775807"), Ok(Value::Int(i64::MAX)));
    assert_eq!(
        parse("9223372036854775808"),
        Err(SyntaxError::InvalidInteger { span: Span::new(0, 19) })
    );
}

#[test]
fn syntax_errors_carry_spans() {
    assert_eq!(
        parse("(1 + 2"),
        Err(SyntaxError::UnexpectedEof { expected: TokenType::RightParen, span: Span::new(6, 6) })
    );
    assert_eq!(
        parse("(1 + 2 3"),
        Err(SyntaxError::Expected {
            expected: TokenType::RightParen,
            found: TokenType::Integer,
            span: Span::new(7, 8),
        })
    );
    assert_eq!(
        parse("1 + *"),
        Err(SyntaxError::ExpectedOneOf { found: TokenType::Star, span: Span::new(4, 5) })
    );
    assert_eq!(parse("1 +"), Err(SyntaxError::ExpectedExpr { span: Span::new(2, 3) }));
    assert_eq!(parse(""), Err(SyntaxError::ExpectedExpr { span: Span::new(0, 0) }));
    assert_eq!(
        parse("1.5"),
        Err(SyntaxError::ExpectedOneOf { found: TokenType::Float, span: Span::new(0, 3) })
    );
}

#[test]
fn lexical_errors_reach_the_parser() {
    assert_eq!(
        parse("\"abc"),
        Err(SyntaxError::Lexical(LexError::UnterminatedString { span: Span::new(4, 4) }))
    );
    assert_eq!(
        parse("1 + 2 $"),
        Err(SyntaxError::Lexical(LexError::UnknownCharacter { span: Span::new(6, 7) }))
    );
}

#[test]
fn synchronize_skips_to_a_statement_start() {
    let source = "1 + * 2 3 ; 4";
    let mut files = Files::new();
    let file = file_of(&mut files, source);
    let mut parser = Parser::new(source, file);
    assert_eq!(
        parser.next_expression(),
        Err(SyntaxError::ExpectedOneOf { found: TokenType::Star, span: Span::new(4, 5) })
    );
    parser.synchronize();
    assert_eq!(
        parser.next_expression(),
        Err(SyntaxError::ExpectedOneOf { found: TokenType::Semicolon, span: Span::new(10, 11) })
    );

    let source = "1 + ; let x";
    let file = file_of(&mut files, source);
    let mut parser = Parser::new(source, file);
    assert!(parser.next_expression().is_err());
    parser.synchronize();
    assert_eq!(parser.next_expression(), Err(SyntaxError::ExpectedExpr { span: Span::new(10, 11) }));
}

#[test]
fn calls_and_variables_are_unsupported() {
    let mut files = Files::new();
    let file = file_of(&mut files, "x");
    let mut interner = lasso::Rodeo::default();
    let name = Span::new(0, 1).span(interner.get_or_intern("x"));
    let var = Span::new(0, 1).span(ExprKind::Variable(name));
    assert_eq!(
        Interpreter::new(file).visit_expr(&var),
        Err(RuntimeError::Unsupported { span: Span::new(0, 1) })
    );
    let call = Span::new(0, 3).span(ExprKind::Call { name, args: vec![] });
    assert_eq!(
        Interpreter::new(file).visit_expr(&call),
        Err(RuntimeError::Unsupported { span: Span::new(0, 3) })
    );
}

#[test]
fn diagnostics_carry_message_label_and_span() {
    let source = "(1 + 2 3";
    let mut files = Files::new();
    let file = file_of(&mut files, source);
    let mut parser = Parser::new(source, file);
    let err = parser.next_expression().unwrap_err();
    let d = parser.make_diagnostic(&err);
    assert_eq!(d.message, "unexpected token");
    assert_eq!(d.labels.len(), 1);
    assert_eq!(d.labels[0].span, Span::new(7, 8));
    assert_eq!(d.labels[0].message, "expected ')', but got '<int>'");
    assert!(d.labels[0].file == file);

    let source = "1 + true";
    let file = file_of(&mut files, source);
    let expr = Parser::new(source, file).next_expression().unwrap();
    let interpreter = Interpreter::new(file);
    let err = Interpreter::new(file).visit_expr(&expr).unwrap_err();
    let d = interpreter.make_diagnostic(&err);
    assert_eq!(d.message, "invalid type");
    assert_eq!(d.labels[0].message, "expected 'int' found 'bool'");
    assert_eq!(d.labels[0].span, Span::new(4, 8));

    let d = SyntaxError::UnexpectedEof { expected: TokenType::RightParen, span: Span::new(6, 6) }
        .to_diagnostic(file);
    assert_eq!(d.message, "unexpected eof");
    assert_eq!(d.labels[0].message, "expected ')', but found eof");
    let d = RuntimeError::DivideByZero { span: Span::new(0, 5) }.to_diagnostic(file);
    assert_eq!(d.message, "division by zero");
}

#[test]
fn printed_form_parses_back_to_the_same_tree() {
    let sources = [
        "1 + 2 * 3",
        "(1+2)*-3",
        "1 - (2 - 3)",
        "!(1 < 2) == false",
        "--5",
        "\"a\\\"b\" == \"c d\"",
        "1_000 / (((7)))",
    ];
    for source in sources.iter() {
        let tree = parse(source).unwrap();
        let printed = tre::print_expr(&tree);
        let again = parse(&printed).unwrap();
        assert_eq!(shape(&again), shape(&tree), "{} printed as {}", source, printed);
    }
}

#[test]
fn printer_output() {
    assert_eq!(tre::print_expr(&parse("(1+2)*-3").unwrap()), "(1 + 2) * -3");
    assert_eq!(tre::print_expr(&parse("1_000 >=2").unwrap()), "1000 >= 2");
    assert_eq!(tre::print_expr(&parse("!true!=false").unwrap()), "!true != false");
    assert_eq!(tre::print_expr(&parse("\"x\"").unwrap()), "\"x\"");
    let negative = Span::new(0, 2).span(ExprKind::Literal(Literal::Int(-12)));
    assert_eq!(tre::print_expr(&negative), "-12");
    let smallest = Span::new(0, 2).span(ExprKind::Literal(Literal::Int(i64::MIN)));
    assert_eq!(tre::print_expr(&smallest), "-9223372036854775808");
}

struct Counter {
    literals: usize,
    binaries: usize,
    unaries: usize,
}

impl tre::visit::ExprVisitor for Counter {
    type Output = usize;

    fn visit_literal(&mut self, _expr: &Expr, _literal: &Literal) -> usize {
        self.literals += 1;
        1
    }

    fn visit_binary(&mut self, _expr: &Expr, left: &Expr, _op: &BinaryOperation, right: &Expr) -> usize {
        self.binaries += 1;
        1 + tre::visit::visit_expr(self, left) + tre::visit::visit_expr(self, right)
    }

    fn visit_unary(&mut self, _expr: &Expr, _op: &UnaryOperation, right: &Expr) -> usize {
        self.unaries += 1;
        1 + tre::visit::visit_expr(self, right)
    }

    fn visit_call(&mut self, _expr: &Expr, _name: &tre::ast::Identifier, _args: &Vec<Expr>) -> usize {
        0
    }

    fn visit_variable(&mut self, _expr: &Expr, _name: &tre::ast::Identifier) -> usize {
        0
    }
}

#[test]
fn visitor_routes_each_kind_and_looks_through_groupings() {
    let tree = parse("((1 + -2)) * (3)").unwrap();
    let mut counter = Counter { literals: 0, binaries: 0, unaries: 0 };
    let nodes = tre::visit::visit_expr(&mut counter, &tree);
    assert_eq!(nodes, 6);
    assert_eq!(counter.literals, 3);
    assert_eq!(counter.binaries, 2);
    assert_eq!(counter.unaries, 1);
}

#[test]
fn interpreter_as_a_visitor() {
    let source = "((1 + 2)) * -3";
    let mut files = Files::new();
    let file = file_of(&mut files, source);
    let tree = Parser::new(source, file).next_expression().unwrap();
    let mut interpreter = Interpreter::new(file);
    assert_eq!(tre::visit::visit_expr(&mut interpreter, &tree), Ok(Value::Int(-9)));
    let grouped = parse("(true)").unwrap();
    assert_eq!(tre::visit::visit_expr(&mut interpreter, &grouped), Ok(Value::Bool(true)));
}

impl tre::visit::StmtVisitor for Counter {
    type Output = String;

    fn visit_let(&mut self, _stmt: &tre::ast::Stmt, _name: &tre::ast::Identifier, _ty: &tre::ast::Type, _val: &Expr) -> String {
        "let".to_string()
    }

    fn visit_if(&mut self, _stmt: &tre::ast::Stmt, _cond: &Expr, _then: &tre::ast::Block, _otherwise: &tre::ast::Block) -> String {
        "if".to_string()
    }

    fn visit_while(&mut self, _stmt: &tre::ast::Stmt, _cond: &Expr, _block: &tre::ast::Block) -> String {
        "while".to_string()
    }

    fn visit_loop(&mut self, _stmt: &tre::ast::Stmt, block: &tre::ast::Block) -> String {
        format!("loop of {}", block.len())
    }

    fn convert(&mut self, value: usize) -> String {
        format!("expression of {} nodes", value)
    }
}

#[test]
fn statement_visitor_routes_each_kind() {
    let mut counter = Counter { literals: 0, binaries: 0, unaries: 0 };
    let expr_stmt = Span::new(0, 5).span(tre::ast::StmtKind::Expr(parse("1 + 2").unwrap()));
    assert_eq!(tre::visit::visit_stmt(&mut counter, &expr_stmt), "expression of 3 nodes");
    assert_eq!(counter.literals, 2);
    let loop_stmt = Span::new(0, 7).span(tre::ast::StmtKind::Loop(vec![expr_stmt]));
    assert_eq!(tre::visit::visit_stmt(&mut counter, &loop_stmt), "loop of 1");
    let cond = parse("true").unwrap();
    let while_stmt = Span::new(0, 10).span(tre::ast::StmtKind::While { cond, block: vec![] });
    assert_eq!(tre::visit::visit_stmt(&mut counter, &while_stmt), "while");
}

#[test]
fn errors_name_what_was_expected() {
    let err = parse("1 + *").unwrap_err();
    assert_eq!(
        err.expected_kinds(),
        vec![TokenType::LeftParen, TokenType::Integer, TokenType::String, TokenType::Bool]
    );
    assert_eq!(parse("(1").unwrap_err().expected_kinds(), vec![TokenType::RightParen]);
    assert_eq!(parse("").unwrap_err().expected_kinds(), vec![]);
}
