use amds_syntax::ast::{
    BinaryOperator, ParsedBlock, ParsedExpression, ParsedModule, ParsedProcCall, ParsedProcDecl,
    ParsedStatement, ParsedStructDecl, ParsedType, ParsedVarDecl, RangeExprBound, UnaryOperator,
};
use amds_syntax::error::{ParseError, ParseErrorKind, Unsupported};
use amds_syntax::parser::Parser;
use amds_syntax::token::{IntegerLiteralFormat, NumericConstant, Span, Token};
use amds_syntax::tokenizer::Tokenizer;

fn parser_for(source: &str) -> Parser {
    let tokens = Tokenizer::new(source).tokenize().expect("the source lexes");
    Parser::new(tokens)
}

fn expression(source: &str) -> Result<ParsedExpression, ParseError> {
    parser_for(source).parse_expression(true, true)
}

fn statement(source: &str) -> Result<ParsedStatement, ParseError> {
    parser_for(source).parse_statement()
}

fn module(source: &str) -> Result<ParsedModule, ParseError> {
    parser_for(source).parse_module()
}

fn failure(kind: ParseErrorKind, at: usize) -> ParseError {
    ParseError { kind, at }
}

fn number(text: &str) -> ParsedExpression {
    ParsedExpression::NumericConstant(NumericConstant::Integer(
        String::from(text),
        IntegerLiteralFormat::Decimal,
    ))
}

fn var(name: &str) -> ParsedExpression {
    ParsedExpression::Var(String::from(name))
}

fn binary(lhs: ParsedExpression, op: BinaryOperator, rhs: ParsedExpression) -> ParsedExpression {
    ParsedExpression::BinaryOperation(Box::new(lhs), op, Box::new(rhs))
}

fn unary(operand: ParsedExpression, op: UnaryOperator) -> ParsedExpression {
    ParsedExpression::UnaryOperation(Box::new(operand), op)
}

fn named(name: &str) -> ParsedType {
    ParsedType::Name(Vec::new(), String::from(name))
}

fn unwritten() -> ParsedType {
    named("")
}

fn field(name: &str, of: &str) -> ParsedVarDecl {
    ParsedVarDecl {
        parsed_type: named(of),
        name: String::from(name),
        default_value: ParsedExpression::Invalid,
    }
}

fn argument(label: &str, value: ParsedExpression) -> ParsedVarDecl {
    ParsedVarDecl { parsed_type: unwritten(), name: String::from(label), default_value: value }
}

fn call(name: &str, arguments: Vec<ParsedVarDecl>) -> ParsedExpression {
    ParsedExpression::ProcCall(ParsedProcCall {
        name: String::from(name),
        passed_parameters: arguments,
    })
}

fn block(stmts: Vec<ParsedStatement>) -> ParsedBlock {
    ParsedBlock { stmts }
}

fn empty_main() -> ParsedModule {
    ParsedModule {
        name: String::from("main"),
        imports: vec![],
        structs: vec![],
        enums: vec![],
        procs: vec![],
    }
}

#[test]
fn multiplication_binds_tighter_than_addition() {
    assert_eq!(
        expression("1 + 2 * 3"),
        Ok(binary(
            number("1"),
            BinaryOperator::Add,
            binary(number("2"), BinaryOperator::Multiply, number("3"))
        ))
    );
    assert_eq!(
        expression("1 * 2 + 3"),
        Ok(binary(
            binary(number("1"), BinaryOperator::Multiply, number("2")),
            BinaryOperator::Add,
            number("3")
        ))
    );
}

#[test]
fn assignment_binds_least() {
    assert_eq!(
        expression("a = b + c"),
        Ok(binary(
            var("a"),
            BinaryOperator::Assign,
            binary(var("b"), BinaryOperator::Add, var("c"))
        ))
    );
}

#[test]
fn subtraction_groups_from_the_left() {
    assert_eq!(
        expression("8 - 4 - 2"),
        Ok(binary(
            binary(number("8"), BinaryOperator::Subtract, number("4")),
            BinaryOperator::Subtract,
            number("2")
        ))
    );
}

#[test]
fn a_long_run_groups_by_priority() {
    // a || b && c == d + e * f - g
    let product = binary(var("e"), BinaryOperator::Multiply, var("f"));
    let sum = binary(var("d"), BinaryOperator::Add, product);
    let difference = binary(sum, BinaryOperator::Subtract, var("g"));
    let equal = binary(var("c"), BinaryOperator::EQ, difference);
    let both = binary(var("b"), BinaryOperator::LogicalAnd, equal);
    let either = binary(var("a"), BinaryOperator::LogicalOr, both);
    assert_eq!(expression("a || b && c == d + e * f - g"), Ok(either));
}

#[test]
fn tighter_operators_fold_before_a_looser_one() {
    // a * b + c * d - e
    let left = binary(var("a"), BinaryOperator::Multiply, var("b"));
    let right = binary(var("c"), BinaryOperator::Multiply, var("d"));
    let sum = binary(left, BinaryOperator::Add, right);
    assert_eq!(
        expression("a * b + c * d - e"),
        Ok(binary(sum, BinaryOperator::Subtract, var("e")))
    );
}

#[test]
fn every_binary_operator_is_read() {
    let operators = vec![
        ("+", BinaryOperator::Add),
        ("-", BinaryOperator::Subtract),
        ("*", BinaryOperator::Multiply),
        ("/", BinaryOperator::Divide),
        ("%", BinaryOperator::Modulo),
        ("&&", BinaryOperator::LogicalAnd),
        ("||", BinaryOperator::LogicalOr),
        ("^^", BinaryOperator::LogicalXOR),
        ("!=", BinaryOperator::NEQ),
        ("==", BinaryOperator::EQ),
        (">", BinaryOperator::GT),
        ("<=", BinaryOperator::LEQ),
        (">=", BinaryOperator::GEQ),
        ("&", BinaryOperator::BitwiseAnd),
        ("|", BinaryOperator::BitwiseOr),
        ("^", BinaryOperator::BitwiseXOR),
        ("<<", BinaryOperator::BitwiseLeftShift),
        (">>", BinaryOperator::BitwiseRightShift),
        ("=", BinaryOperator::Assign),
        ("+=", BinaryOperator::AddAssign),
        ("-=", BinaryOperator::SubtractAssign),
        ("*=", BinaryOperator::MultiplyAssign),
        ("/=", BinaryOperator::DivideAssign),
        ("%=", BinaryOperator::ModuloAssign),
        ("&=", BinaryOperator::AndAssign),
        ("|=", BinaryOperator::OrAssign),
        ("^=", BinaryOperator::XORAssign),
        ("<<=", BinaryOperator::LeftShiftAssign),
        (">>=", BinaryOperator::RightShiftAssign),
    ];
    for (spelling, op) in operators {
        let source = format!("a {} b", spelling);
        assert_eq!(expression(&source), Ok(binary(var("a"), op, var("b"))), "{}", spelling);
    }
}

#[test]
fn less_than_after_an_operand_is_kept_for_indexing() {
    assert_eq!(
        expression("a < b"),
        Err(failure(ParseErrorKind::Unsupported(Unsupported::Indexing), 1))
    );
}

#[test]
fn assignment_is_refused_where_it_may_not_stand() {
    let mut parser = parser_for("x = 5");
    assert_eq!(
        parser.parse_expression(false, true),
        Err(failure(ParseErrorKind::AssignmentNotAllowed, 1))
    );
    assert_eq!(parser.idx, 1);
    assert_eq!(
        statement("if x = 5 { }"),
        Err(failure(ParseErrorKind::AssignmentNotAllowed, 2))
    );
    assert_eq!(
        statement("return x += 1;"),
        Err(failure(ParseErrorKind::AssignmentNotAllowed, 2))
    );
}

#[test]
fn prefix_operators_wrap_their_operand() {
    assert_eq!(expression("!done"), Ok(unary(var("done"), UnaryOperator::LogicalNot)));
    assert_eq!(expression("~bits"), Ok(unary(var("bits"), UnaryOperator::BitwiseNot)));
    assert_eq!(expression("&x"), Ok(unary(var("x"), UnaryOperator::AddressOf)));
    assert_eq!(expression("<p"), Ok(unary(var("p"), UnaryOperator::Dereference)));
    assert_eq!(expression("++i"), Ok(unary(var("i"), UnaryOperator::PreIncrement)));
    assert_eq!(expression("--i"), Ok(unary(var("i"), UnaryOperator::PreDecrement)));
    assert_eq!(
        expression("!~x"),
        Ok(unary(unary(var("x"), UnaryOperator::BitwiseNot), UnaryOperator::LogicalNot))
    );
}

#[test]
fn postfix_operators_wrap_their_operand() {
    assert_eq!(expression("i++"), Ok(unary(var("i"), UnaryOperator::PostIncrement)));
    assert_eq!(expression("i--"), Ok(unary(var("i"), UnaryOperator::PostDecrement)));
    assert_eq!(
        expression("x as i64"),
        Ok(unary(var("x"), UnaryOperator::TypeCast(Box::new(named("i64")))))
    );
    assert_eq!(
        expression("x as i64 + 1"),
        Ok(binary(
            unary(var("x"), UnaryOperator::TypeCast(Box::new(named("i64")))),
            BinaryOperator::Add,
            number("1")
        ))
    );
}

#[test]
fn literals_are_leaves() {
    assert_eq!(expression("true"), Ok(ParsedExpression::Bool(true)));
    assert_eq!(expression("false"), Ok(ParsedExpression::Bool(false)));
    assert_eq!(expression("'x'"), Ok(ParsedExpression::CharLiteral(b'x')));
    assert_eq!(
        expression("\"text\""),
        Ok(ParsedExpression::StringLiteral(String::from("text")))
    );
    assert_eq!(expression("42"), Ok(number("42")));
}

#[test]
fn call_arguments_carry_their_labels() {
    assert_eq!(
        expression("add(a: 1, b: x + 2)"),
        Ok(call(
            "add",
            vec![
                argument("a", number("1")),
                argument("b", binary(var("x"), BinaryOperator::Add, number("2"))),
            ]
        ))
    );
    assert_eq!(expression("now()"), Ok(call("now", vec![])));
    assert_eq!(
        expression("f(a: 1,)"),
        Ok(call("f", vec![argument("a", number("1"))]))
    );
}

#[test]
fn a_label_without_a_value_passes_invalid() {
    assert_eq!(
        expression("f(a:, b: 2)"),
        Ok(call(
            "f",
            vec![argument("a", ParsedExpression::Invalid), argument("b", number("2"))]
        ))
    );
    assert_eq!(
        expression("f(a:)"),
        Ok(call("f", vec![argument("a", ParsedExpression::Invalid)]))
    );
}

#[test]
fn calls_nest() {
    assert_eq!(
        expression("f(x: g(y: 1)) * 2"),
        Ok(binary(
            call("f", vec![argument("x", call("g", vec![argument("y", number("1"))]))]),
            BinaryOperator::Multiply,
            number("2")
        ))
    );
}

#[test]
fn an_argument_needs_its_label() {
    assert_eq!(expression("f(1)"), Err(failure(ParseErrorKind::ExpectedArgument, 2)));
    assert_eq!(expression("f(a)"), Err(failure(ParseErrorKind::ExpectedColon, 3)));
    assert_eq!(
        expression("f(a: 1 b: 2)"),
        Err(failure(ParseErrorKind::ExpectedCommaOrRParen, 5))
    );
    assert_eq!(expression("f(a: = 2)"), Err(failure(ParseErrorKind::ExpectedOperand, 4)));
}

#[test]
fn an_expression_goes_on_over_line_ends() {
    assert_eq!(
        expression("1 +\n 2"),
        Ok(binary(number("1"), BinaryOperator::Add, number("2")))
    );
    assert_eq!(
        expression("1\n + 2"),
        Ok(binary(number("1"), BinaryOperator::Add, number("2")))
    );
}

#[test]
fn an_expression_ends_at_the_line_end_where_newlines_are_not_allowed() {
    let mut parser = parser_for("1\n + 2");
    assert_eq!(parser.parse_expression(false, false), Ok(number("1")));
    assert_eq!(parser.idx, 1);
}

#[test]
fn an_expression_ends_before_an_opening_brace() {
    let mut parser = parser_for("x == 1 { }");
    assert_eq!(
        parser.parse_expression(false, true),
        Ok(binary(var("x"), BinaryOperator::EQ, number("1")))
    );
    assert_eq!(parser.idx, 3);
}

#[test]
fn something_that_is_no_operand_is_an_error() {
    assert_eq!(expression(""), Err(failure(ParseErrorKind::ExpectedOperand, 0)));
    assert_eq!(expression("1 + ;"), Err(failure(ParseErrorKind::ExpectedOperand, 2)));
    assert_eq!(expression("(1)"), Err(failure(ParseErrorKind::ExpectedOperand, 0)));
    assert_eq!(
        expression("match x"),
        Err(failure(ParseErrorKind::Unsupported(Unsupported::MatchExpression), 0))
    );
}

#[test]
fn parse_operator_reads_one_operator() {
    let mut parser = parser_for("* 2");
    assert_eq!(
        parser.parse_operator(false),
        Ok(ParsedExpression::Operator(BinaryOperator::Multiply))
    );
    assert_eq!(parser.idx, 1);
    assert_eq!(
        parser.parse_operator(false),
        Ok(ParsedExpression::Operator(BinaryOperator::Invalid))
    );
    assert_eq!(parser.idx, 1);
}

#[test]
fn ranges_record_their_bounds() {
    let range = |lower, upper| {
        ParsedExpression::Range(lower, Box::new(var("a")), Box::new(var("b")), upper)
    };
    assert_eq!(
        parser_for("[a .. b]").parse_range_expression(),
        Ok(range(RangeExprBound::Inclusive, RangeExprBound::Inclusive))
    );
    assert_eq!(
        parser_for("(a .. b]").parse_range_expression(),
        Ok(range(RangeExprBound::Exclusive, RangeExprBound::Inclusive))
    );
    assert_eq!(
        parser_for("[a .. b)").parse_range_expression(),
        Ok(range(RangeExprBound::Inclusive, RangeExprBound::Exclusive))
    );
    assert_eq!(
        parser_for("(a .. b)").parse_range_expression(),
        Ok(range(RangeExprBound::Exclusive, RangeExprBound::Exclusive))
    );
}

#[test]
fn malformed_ranges_are_errors() {
    assert_eq!(
        parser_for("a .. b").parse_range_expression(),
        Err(failure(ParseErrorKind::ExpectedRangeStart, 0))
    );
    assert_eq!(
        parser_for("[a, b]").parse_range_expression(),
        Err(failure(ParseErrorKind::ExpectedDotDot, 2))
    );
    assert_eq!(
        parser_for("[a .. b;").parse_range_expression(),
        Err(failure(ParseErrorKind::ExpectedRangeEnd, 4))
    );
}

#[test]
fn types_are_paths_of_names() {
    assert_eq!(parser_for("i32").parse_type_name(), Ok(named("i32")));
    assert_eq!(parser_for("Point").parse_type_name(), Ok(named("Point")));
    assert_eq!(
        parser_for("geometry::shapes::Point").parse_type_name(),
        Ok(ParsedType::Name(
            vec![String::from("geometry"), String::from("shapes")],
            String::from("Point")
        ))
    );
    assert_eq!(
        parser_for("**Node").parse_type_name(),
        Ok(ParsedType::Name(vec![String::from("*"), String::from("*")], String::from("Node")))
    );
    assert_eq!(
        parser_for("*list::Node").parse_type_name(),
        Ok(ParsedType::Name(
            vec![String::from("*"), String::from("list")],
            String::from("Node")
        ))
    );
}

#[test]
fn a_type_stops_after_its_name() {
    let mut parser = parser_for("Point ,");
    assert_eq!(parser.parse_type_name(), Ok(named("Point")));
    assert_eq!(parser.idx, 1);
}

#[test]
fn malformed_types_are_errors() {
    assert_eq!(
        parser_for("geometry::").parse_type_name(),
        Err(failure(ParseErrorKind::IncompleteTypePath, 2))
    );
    assert_eq!(
        parser_for("geometry::,").parse_type_name(),
        Err(failure(ParseErrorKind::IncompleteTypePath, 2))
    );
    assert_eq!(
        parser_for("*").parse_type_name(),
        Err(failure(ParseErrorKind::ExpectedTypeName, 1))
    );
    assert_eq!(
        parser_for("*i32").parse_type_name(),
        Err(failure(ParseErrorKind::ExpectedTypeName, 1))
    );
    assert_eq!(
        parser_for("[i32]").parse_type_name(),
        Err(failure(ParseErrorKind::Unsupported(Unsupported::ArrayType), 0))
    );
}

#[test]
fn let_with_a_written_type() {
    assert_eq!(
        statement("let x: i32 = 1 + 2;"),
        Ok(ParsedStatement::VarDecl(ParsedVarDecl {
            parsed_type: named("i32"),
            name: String::from("x"),
            default_value: binary(number("1"), BinaryOperator::Add, number("2")),
        }))
    );
}

#[test]
fn let_with_an_unwritten_type() {
    assert_eq!(
        statement("let x := y;"),
        Ok(ParsedStatement::VarDecl(ParsedVarDecl {
            parsed_type: unwritten(),
            name: String::from("x"),
            default_value: var("y"),
        }))
    );
}

#[test]
fn malformed_let_is_an_error() {
    assert_eq!(statement("let = 1;"), Err(failure(ParseErrorKind::ExpectedIdentifier, 1)));
    assert_eq!(
        statement("let x = 1;"),
        Err(failure(ParseErrorKind::ExpectedColonOrColonAssign, 2))
    );
    assert_eq!(statement("let x: i32 1;"), Err(failure(ParseErrorKind::ExpectedAssign, 4)));
    assert_eq!(statement("let x := 1"), Err(failure(ParseErrorKind::ExpectedSemicolon, 4)));
}

#[test]
fn if_without_else() {
    assert_eq!(
        statement("if ready { go(); }"),
        Ok(ParsedStatement::If(
            var("ready"),
            block(vec![ParsedStatement::Expr(call("go", vec![]))]),
            None
        ))
    );
}

#[test]
fn if_with_else_block() {
    let mut parser = parser_for("if a { } else { break; } x");
    assert_eq!(
        parser.parse_statement(),
        Ok(ParsedStatement::If(
            var("a"),
            block(vec![]),
            Some(Box::new(ParsedStatement::Block(block(vec![ParsedStatement::Break]))))
        ))
    );
    assert_eq!(parser.idx, 9);
}

#[test]
fn else_if_chains() {
    assert_eq!(
        statement("if a { } else if b { } else { continue; }"),
        Ok(ParsedStatement::If(
            var("a"),
            block(vec![]),
            Some(Box::new(ParsedStatement::If(
                var("b"),
                block(vec![]),
                Some(Box::new(ParsedStatement::Block(block(vec![ParsedStatement::Continue]))))
            )))
        ))
    );
}

#[test]
fn else_may_stand_on_the_next_line() {
    assert_eq!(
        statement("if a { }\nelse { }"),
        Ok(ParsedStatement::If(
            var("a"),
            block(vec![]),
            Some(Box::new(ParsedStatement::Block(block(vec![]))))
        ))
    );
}

#[test]
fn line_ends_after_an_if_are_left_where_no_else_follows() {
    let mut parser = parser_for("if a { }\n\nx;");
    assert_eq!(parser.parse_statement(), Ok(ParsedStatement::If(var("a"), block(vec![]), None)));
    assert_eq!(parser.idx, 4);
}

#[test]
fn for_loop_over_a_range() {
    assert_eq!(
        statement("for i in [a .. b) { }"),
        Ok(ParsedStatement::ForLoop(
            argument("i", ParsedExpression::Invalid),
            ParsedExpression::Range(
                RangeExprBound::Inclusive,
                Box::new(var("a")),
                Box::new(var("b")),
                RangeExprBound::Exclusive
            ),
            block(vec![])
        ))
    );
}

#[test]
fn malformed_for_is_an_error() {
    assert_eq!(statement("for in [a .. b] { }"), Err(failure(ParseErrorKind::ExpectedIdentifier, 1)));
    assert_eq!(statement("for i [a .. b] { }"), Err(failure(ParseErrorKind::ExpectedIn, 2)));
    assert_eq!(statement("for i in a { }"), Err(failure(ParseErrorKind::ExpectedRangeStart, 3)));
}

#[test]
fn while_and_loop() {
    assert_eq!(
        statement("while x != y { x++; }"),
        Ok(ParsedStatement::WhileLoop(
            binary(var("x"), BinaryOperator::NEQ, var("y")),
            block(vec![ParsedStatement::Expr(unary(var("x"), UnaryOperator::PostIncrement))])
        ))
    );
    assert_eq!(
        statement("loop { break; }"),
        Ok(ParsedStatement::InfiniteLoop(block(vec![ParsedStatement::Break])))
    );
}

#[test]
fn continue_break_and_return() {
    assert_eq!(statement("continue;"), Ok(ParsedStatement::Continue));
    assert_eq!(statement("break;"), Ok(ParsedStatement::Break));
    assert_eq!(
        statement("return a + b;"),
        Ok(ParsedStatement::Return(binary(var("a"), BinaryOperator::Add, var("b"))))
    );
    assert_eq!(statement("continue"), Err(failure(ParseErrorKind::ExpectedSemicolon, 1)));
    assert_eq!(statement("break }"), Err(failure(ParseErrorKind::ExpectedSemicolon, 1)));
    assert_eq!(statement("return;"), Err(failure(ParseErrorKind::ExpectedOperand, 1)));
}

#[test]
fn an_expression_statement_may_assign() {
    assert_eq!(
        statement("total += price * 2;"),
        Ok(ParsedStatement::Expr(binary(
            var("total"),
            BinaryOperator::AddAssign,
            binary(var("price"), BinaryOperator::Multiply, number("2"))
        )))
    );
}

#[test]
fn a_block_skips_line_ends() {
    assert_eq!(
        parser_for("\n{\n\n  break;\n  continue;\n}").parse_block(),
        Ok(block(vec![ParsedStatement::Break, ParsedStatement::Continue]))
    );
}

#[test]
fn a_block_needs_both_braces() {
    assert_eq!(
        parser_for("break; }").parse_block(),
        Err(failure(ParseErrorKind::ExpectedLCurly, 0))
    );
    assert_eq!(
        parser_for("{ break;").parse_block(),
        Err(failure(ParseErrorKind::ExpectedRCurly, 3))
    );
}

#[test]
fn struct_with_two_members() {
    let mut expected = empty_main();
    expected.structs.push(ParsedStructDecl {
        name: String::from("Point"),
        data_members: vec![field("x", "i32"), field("y", "i32")],
    });
    assert_eq!(module("decl Point : struct { x: i32, y: i32 }"), Ok(expected));
}

#[test]
fn struct_from_tokens() {
    let at = Span { file_id: 0, start: 0, end: 0 };
    let tokens = vec![
        Token::KeywordDecl(at),
        Token::IdentName(at, String::from("Point")),
        Token::Colon(at),
        Token::KeywordStruct(at),
        Token::LCurly(at),
        Token::IdentName(at, String::from("x")),
        Token::Colon(at),
        Token::IdentName(at, String::from("i32")),
        Token::Comma(at),
        Token::IdentName(at, String::from("y")),
        Token::Colon(at),
        Token::IdentName(at, String::from("i32")),
        Token::RCurly(at),
        Token::EOF,
    ];
    let mut parser = Parser { token_stream: tokens, idx: 0 };
    let parsed = parser.parse_module().expect("the struct parses");
    assert_eq!(parsed.structs.len(), 1);
    assert_eq!(parsed.structs[0].name, "Point");
    assert_eq!(parsed.structs[0].data_members, vec![field("x", "i32"), field("y", "i32")]);
    assert_eq!(parser.idx, 13);
}

#[test]
fn struct_over_several_lines_with_a_trailing_comma() {
    let mut expected = empty_main();
    expected.structs.push(ParsedStructDecl {
        name: String::from("Pair"),
        data_members: vec![
            field("first", "u8"),
            ParsedVarDecl {
                parsed_type: ParsedType::Name(vec![String::from("*")], String::from("Pair")),
                name: String::from("rest"),
                default_value: ParsedExpression::Invalid,
            },
        ],
    });
    assert_eq!(
        module("decl Pair : struct {\n  first\n : u8,\n  rest: *Pair,\n}\n"),
        Ok(expected)
    );
}

#[test]
fn empty_struct() {
    let mut expected = empty_main();
    expected
        .structs
        .push(ParsedStructDecl { name: String::from("Unit"), data_members: vec![] });
    assert_eq!(module("decl Unit : struct { }"), Ok(expected));
}

#[test]
fn struct_without_closing_brace_is_an_error() {
    assert_eq!(
        module("decl Point : struct { x: i32, y: i32"),
        Err(failure(ParseErrorKind::ExpectedCommaOrRCurly, 12))
    );
    assert_eq!(
        module("decl Point : struct { x: i32,"),
        Err(failure(ParseErrorKind::ExpectedMember, 9))
    );
    assert_eq!(
        module("decl Point : struct {"),
        Err(failure(ParseErrorKind::ExpectedMember, 5))
    );
}

#[test]
fn other_punctuation_in_a_struct_body_is_an_error() {
    assert_eq!(
        module("decl Point : struct { x: i32; y: i32 }"),
        Err(failure(ParseErrorKind::ExpectedCommaOrRCurly, 8))
    );
    assert_eq!(
        module("decl Point : struct { x = i32 }"),
        Err(failure(ParseErrorKind::ExpectedColon, 6))
    );
    assert_eq!(
        module("decl Point : struct x: i32 }"),
        Err(failure(ParseErrorKind::ExpectedLCurly, 4))
    );
}

#[test]
fn procedure_with_two_parameters() {
    let mut expected = empty_main();
    expected.procs.push(ParsedProcDecl {
        name: String::from("add"),
        parameters: vec![field("a", "i32"), field("b", "i32")],
        parsed_return_type: named("i32"),
        body: block(vec![ParsedStatement::Return(binary(
            var("a"),
            BinaryOperator::Add,
            var("b"),
        ))]),
    });
    assert_eq!(module("decl add : (a: i32, b: i32) -> i32 { return a + b; }"), Ok(expected));
}

#[test]
fn procedure_without_return_type_returns_nothing() {
    let mut expected = empty_main();
    expected.procs.push(ParsedProcDecl {
        name: String::from("run"),
        parameters: vec![],
        parsed_return_type: named("nothing"),
        body: block(vec![]),
    });
    assert_eq!(module("decl run : () { }"), Ok(expected));
}

#[test]
fn procedure_with_a_named_return_type_and_body_on_the_next_line() {
    let mut expected = empty_main();
    expected.procs.push(ParsedProcDecl {
        name: String::from("origin"),
        parameters: vec![field("scale", "f64")],
        parsed_return_type: ParsedType::Name(vec![String::from("geometry")], String::from("Point")),
        body: block(vec![]),
    });
    assert_eq!(module("decl origin : (scale: f64,)\n -> geometry::Point\n{\n}\n"), Ok(expected));
}

#[test]
fn parameter_without_type_is_an_error() {
    assert_eq!(
        module("decl f : (a) { }"),
        Err(failure(ParseErrorKind::ExpectedColon, 5))
    );
    assert_eq!(
        module("decl f : (a, b: i32) { }"),
        Err(failure(ParseErrorKind::ExpectedColon, 5))
    );
    assert_eq!(
        module("decl f : (a:) { }"),
        Err(failure(ParseErrorKind::ExpectedTypeName, 6))
    );
}

#[test]
fn malformed_parameter_lists_are_errors() {
    assert_eq!(
        module("decl f : (,) { }"),
        Err(failure(ParseErrorKind::ExpectedParameter, 4))
    );
    assert_eq!(
        module("decl f : (a: i32 b: i32) { }"),
        Err(failure(ParseErrorKind::ExpectedCommaOrRParen, 7))
    );
    assert_eq!(
        module("decl f : (a: i32"),
        Err(failure(ParseErrorKind::ExpectedCommaOrRParen, 7))
    );
    assert_eq!(
        module("decl f : (a: i32) return"),
        Err(failure(ParseErrorKind::ExpectedArrowOrBody, 8))
    );
}

#[test]
fn declarations_keep_their_order() {
    let parsed = module(
        "decl A : struct { }\n\
         decl f : () { }\n\
         decl B : struct { }\n\
         decl g : () { }\n",
    )
    .expect("the module parses");
    assert_eq!(parsed.name, "main");
    let structs: Vec<&str> = parsed.structs.iter().map(|s| s.name.as_str()).collect();
    let procs: Vec<&str> = parsed.procs.iter().map(|p| p.name.as_str()).collect();
    assert_eq!(structs, vec!["A", "B"]);
    assert_eq!(procs, vec!["f", "g"]);
    assert!(parsed.imports.is_empty());
    assert!(parsed.enums.is_empty());
}

#[test]
fn empty_input_is_the_empty_module() {
    assert_eq!(module(""), Ok(empty_main()));
    assert_eq!(module("\n\n// nothing here\n"), Ok(empty_main()));
}

#[test]
fn only_decl_starts_a_top_level_item() {
    assert_eq!(module("let x := 1;"), Err(failure(ParseErrorKind::ExpectedDeclaration, 0)));
    assert_eq!(
        module("decl f : () { }\nreturn"),
        Err(failure(ParseErrorKind::ExpectedDeclaration, 8))
    );
}

#[test]
fn malformed_declarations_are_errors() {
    assert_eq!(module("decl : struct { }"), Err(failure(ParseErrorKind::ExpectedIdentifier, 1)));
    assert_eq!(module("decl Point struct { }"), Err(failure(ParseErrorKind::ExpectedColon, 2)));
    assert_eq!(
        module("decl Point : { }"),
        Err(failure(ParseErrorKind::ExpectedDeclarationKind, 3))
    );
    assert_eq!(module("decl"), Err(failure(ParseErrorKind::ExpectedIdentifier, 1)));
}

#[test]
fn constructs_that_are_not_read_yet_are_reported_as_such() {
    assert_eq!(
        module("#import geometry"),
        Err(failure(ParseErrorKind::Unsupported(Unsupported::Directive), 0))
    );
    assert_eq!(
        module("decl Color : enum { Red, Green }"),
        Err(failure(ParseErrorKind::Unsupported(Unsupported::EnumDeclaration), 3))
    );
    assert_eq!(
        module("decl LIMIT : i32 = 0x2a;"),
        Err(failure(ParseErrorKind::Unsupported(Unsupported::ConstantDeclaration), 3))
    );
    assert_eq!(
        module("decl first : (items: [i32]) { }"),
        Err(failure(ParseErrorKind::Unsupported(Unsupported::ArrayType), 6))
    );
}

#[test]
fn an_end_marker_among_the_tokens_ends_the_module() {
    let at = Span { file_id: 0, start: 0, end: 0 };
    let mut parser = Parser::new(vec![Token::EOL(at), Token::EOF, Token::KeywordLet(at)]);
    assert_eq!(parser.parse_module(), Ok(empty_main()));
    assert_eq!(parser.idx, 1);
}

#[test]
fn a_cursor_past_the_end_reads_the_end_marker() {
    let mut parser = Parser { token_stream: vec![], idx: 7 };
    assert_eq!(parser.parse_module(), Ok(empty_main()));
    assert_eq!(parser.idx, 7);
    assert_eq!(parser.parse_expression(true, true), Err(failure(ParseErrorKind::ExpectedOperand, 7)));
    assert_eq!(parser.parse_block(), Err(failure(ParseErrorKind::ExpectedLCurly, 7)));
}

#[test]
fn a_failed_parse_leaves_the_cursor_at_the_error() {
    let mut parser = parser_for("decl f : (a: i32) { return a +; }");
    assert_eq!(parser.parse_module(), Err(failure(ParseErrorKind::ExpectedOperand, 12)));
    assert_eq!(parser.idx, 12);
}

#[test]
fn a_whole_program() {
    let source = "\
decl Point : struct {
    x: i32,
    y: i32,
}

decl norm1 : (p: *Point) -> i32 {
    let sum := abs(v: p) + 1;
    if sum == 1 {
        return 1;
    } else {
        sum *= 2;
    }
    for i in [1 .. sum) {
        step(at: i,);
    }
    return sum;
}
";
    let parsed = module(source).expect("the program parses");
    assert_eq!(parsed.structs.len(), 1);
    assert_eq!(parsed.procs.len(), 1);
    let norm = &parsed.procs[0];
    assert_eq!(norm.name, "norm1");
    assert_eq!(
        norm.parameters,
        vec![ParsedVarDecl {
            parsed_type: ParsedType::Name(vec![String::from("*")], String::from("Point")),
            name: String::from("p"),
            default_value: ParsedExpression::Invalid,
        }]
    );
    assert_eq!(norm.parsed_return_type, named("i32"));
    assert_eq!(norm.body.stmts.len(), 4);
    assert_eq!(
        norm.body.stmts[0],
        ParsedStatement::VarDecl(ParsedVarDecl {
            parsed_type: unwritten(),
            name: String::from("sum"),
            default_value: binary(
                call("abs", vec![argument("v", var("p"))]),
                BinaryOperator::Add,
                number("1")
            ),
        })
    );
    assert_eq!(norm.body.stmts[3], ParsedStatement::Return(var("sum")));
}

#[test]
fn an_error_has_the_span_of_its_token() {
    let mut parser = parser_for("decl f : (a: i32) { return a +; }");
    let error = parser.parse_module().expect_err("the operand is missing");
    assert_eq!(error, failure(ParseErrorKind::ExpectedOperand, 12));
    assert_eq!(parser.error_span(&error), Some(Span { file_id: 0, start: 30, end: 31 }));
    let mut parser = parser_for("decl f : (a: i32) {");
    let error = parser.parse_module().expect_err("the block is open");
    assert_eq!(error, failure(ParseErrorKind::ExpectedRCurly, 9));
    assert_eq!(parser.error_span(&error), None);
}

#[test]
fn a_declaration_starts_with_decl() {
    assert_eq!(
        parser_for("struct Point { }").parse_declaration(),
        Err(failure(ParseErrorKind::ExpectedDeclaration, 0))
    );
    assert!(parser_for("decl Point : struct { }").parse_declaration().is_ok());
}

#[test]
fn parts_of_a_declaration_parse_by_themselves() {
    assert_eq!(
        parser_for("(a: u8, b: *Node)").parse_param_list_decl(),
        Ok(vec![
            field("a", "u8"),
            ParsedVarDecl {
                parsed_type: ParsedType::Name(vec![String::from("*")], String::from("Node")),
                name: String::from("b"),
                default_value: ParsedExpression::Invalid,
            },
        ])
    );
    assert_eq!(
        parser_for("a: u8").parse_param_list_decl(),
        Err(failure(ParseErrorKind::ExpectedLParen, 0))
    );
    assert_eq!(parser_for("a: u8").parse_parameter(), Ok(field("a", "u8")));
    assert_eq!(parser_for("a\n:\nu8").parse_member(), Ok(field("a", "u8")));
    assert_eq!(
        parser_for("a\n: u8").parse_parameter(),
        Err(failure(ParseErrorKind::ExpectedColon, 1))
    );
    assert_eq!(
        parser_for("{ a: u8 }").parse_member_list(),
        Ok(vec![field("a", "u8")])
    );
    assert_eq!(
        parser_for("(x: 1)").parse_param_list_usage(),
        Ok(vec![argument("x", number("1"))])
    );
    assert_eq!(
        parser_for("x: 1 + 2").parse_argument(),
        Ok(argument("x", binary(number("1"), BinaryOperator::Add, number("2"))))
    );
    assert_eq!(
        parser_for("f(x: 1)").parse_proc_call(),
        Ok(ParsedProcCall {
            name: String::from("f"),
            passed_parameters: vec![argument("x", number("1"))],
        })
    );
    assert_eq!(
        parser_for("f x").parse_proc_call(),
        Err(failure(ParseErrorKind::ExpectedLParen, 1))
    );
}

#[test]
fn eat_newlines_stops_at_the_first_other_token() {
    let mut parser = parser_for("\n\n\nx\n");
    parser.eat_newlines();
    assert_eq!(parser.idx, 3);
    parser.eat_newlines();
    assert_eq!(parser.idx, 3);
}

#[test]
fn operands_parse_by_themselves() {
    let mut parser = parser_for("\n -- x ++ + 1");
    assert_eq!(
        parser.parse_operand(),
        Ok(unary(
            unary(var("x"), UnaryOperator::PostIncrement),
            UnaryOperator::PreDecrement
        ))
    );
    assert_eq!(parser.idx, 4);
    let mut parser = parser_for("++ 1");
    assert_eq!(
        parser.parse_operand_postfix(var("y")),
        Ok(unary(var("y"), UnaryOperator::PostIncrement))
    );
    assert_eq!(parser.parse_operand_postfix(var("z")), Ok(var("z")));
    assert_eq!(parser.parse_operand_prefix(), Ok(number("1")));
}
