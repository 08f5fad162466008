use amds_syntax::ast::{
    BinaryOperator, ComplexType, ParsedBlock, ParsedExpression, ParsedModule, ParsedProcCall,
    ParsedStatement, ParsedType, ParsedVarDecl, RangeExprBound, UnaryOperator,
};
use amds_syntax::token::{IntegerLiteralFormat, NumericConstant, PrimitiveType};
use amds_syntax::typechecker::{TypeInfo, Typechecker};

fn every_operator() -> Vec<BinaryOperator> {
    vec![
        BinaryOperator::Invalid,
        BinaryOperator::Add,
        BinaryOperator::Subtract,
        BinaryOperator::Multiply,
        BinaryOperator::Divide,
        BinaryOperator::Modulo,
        BinaryOperator::LogicalAnd,
        BinaryOperator::LogicalOr,
        BinaryOperator::LogicalXOR,
        BinaryOperator::NEQ,
        BinaryOperator::EQ,
        BinaryOperator::LT,
        BinaryOperator::GT,
        BinaryOperator::LEQ,
        BinaryOperator::GEQ,
        BinaryOperator::BitwiseAnd,
        BinaryOperator::BitwiseOr,
        BinaryOperator::BitwiseXOR,
        BinaryOperator::BitwiseLeftShift,
        BinaryOperator::BitwiseRightShift,
        BinaryOperator::Assign,
        BinaryOperator::AddAssign,
        BinaryOperator::SubtractAssign,
        BinaryOperator::MultiplyAssign,
        BinaryOperator::DivideAssign,
        BinaryOperator::ModuloAssign,
        BinaryOperator::AndAssign,
        BinaryOperator::OrAssign,
        BinaryOperator::XORAssign,
        BinaryOperator::LeftShiftAssign,
        BinaryOperator::RightShiftAssign,
    ]
}

#[test]
fn priorities_follow_the_table() {
    let expected = vec![
        -1, 11, 11, 12, 12, 12, 4, 2, 3, 8, 8, 9, 9, 9, 9, 7, 5, 6, 10, 10, 1, 1, 1, 1, 1, 1, 1,
        1, 1, 1, 1,
    ];
    let found: Vec<i32> = every_operator().iter().map(|op| op.priority()).collect();
    assert_eq!(found, expected);
}

#[test]
fn the_priority_of_an_expression_is_that_of_its_bare_operator() {
    for op in every_operator() {
        assert_eq!(ParsedExpression::Operator(op).priority(), op.priority());
    }
    assert_eq!(ParsedExpression::Invalid.priority(), -1);
    assert_eq!(ParsedExpression::Bool(true).priority(), -1);
    assert_eq!(ParsedExpression::Var(String::from("x")).priority(), -1);
}

#[test]
fn assignment_operators_are_the_eleven_that_store() {
    let assigning: Vec<BinaryOperator> =
        every_operator().into_iter().filter(|op| op.is_assignment()).collect();
    assert_eq!(
        assigning,
        vec![
            BinaryOperator::Assign,
            BinaryOperator::AddAssign,
            BinaryOperator::SubtractAssign,
            BinaryOperator::MultiplyAssign,
            BinaryOperator::DivideAssign,
            BinaryOperator::ModuloAssign,
            BinaryOperator::AndAssign,
            BinaryOperator::OrAssign,
            BinaryOperator::XORAssign,
            BinaryOperator::LeftShiftAssign,
            BinaryOperator::RightShiftAssign,
        ]
    );
    for op in every_operator() {
        assert_eq!(op.is_assignment(), op.priority() == 1);
    }
}

#[test]
fn variables_and_unary_operations_are_assignable() {
    let x = || ParsedExpression::Var(String::from("x"));
    assert!(x().is_assignable());
    assert!(ParsedExpression::NamespacedVar(vec![String::from("m")], String::from("x"))
        .is_assignable());
    assert!(ParsedExpression::unary(x(), UnaryOperator::Dereference).is_assignable());
    assert!(!ParsedExpression::Bool(true).is_assignable());
    assert!(!ParsedExpression::Invalid.is_assignable());
    assert!(!ParsedExpression::Operator(BinaryOperator::Assign).is_assignable());
    assert!(!ParsedExpression::binary(x(), BinaryOperator::Add, x()).is_assignable());
    assert!(!ParsedExpression::call(ParsedProcCall::new(String::from("f"), vec![]))
        .is_assignable());
    assert!(!ParsedExpression::NumericConstant(NumericConstant::Integer(
        String::from("1"),
        IntegerLiteralFormat::Decimal
    ))
    .is_assignable());
}

#[test]
fn builders_build_the_nodes() {
    let x = || ParsedExpression::Var(String::from("x"));
    assert_eq!(
        ParsedExpression::unary(x(), UnaryOperator::LogicalNot),
        ParsedExpression::UnaryOperation(Box::new(x()), UnaryOperator::LogicalNot)
    );
    assert_eq!(
        ParsedExpression::binary(x(), BinaryOperator::Add, x()),
        ParsedExpression::BinaryOperation(Box::new(x()), BinaryOperator::Add, Box::new(x()))
    );
    assert_eq!(
        ParsedExpression::range(RangeExprBound::Inclusive, x(), x(), RangeExprBound::Exclusive),
        ParsedExpression::Range(
            RangeExprBound::Inclusive,
            Box::new(x()),
            Box::new(x()),
            RangeExprBound::Exclusive
        )
    );
    assert_eq!(
        UnaryOperator::type_cast(ParsedType::named(vec![], String::from("u8"))),
        UnaryOperator::TypeCast(Box::new(ParsedType::Name(vec![], String::from("u8"))))
    );
    assert_eq!(
        ParsedVarDecl::new(ParsedType::named(vec![], String::from("u8")), String::from("n"), x()),
        ParsedVarDecl {
            parsed_type: ParsedType::Name(vec![], String::from("u8")),
            name: String::from("n"),
            default_value: x(),
        }
    );
    assert_eq!(
        ParsedStatement::conditional(x(), ParsedBlock::new(), Some(ParsedStatement::Break)),
        ParsedStatement::If(
            x(),
            ParsedBlock { stmts: vec![] },
            Some(Box::new(ParsedStatement::Break))
        )
    );
    assert_eq!(
        ParsedStatement::conditional(x(), ParsedBlock::new(), None),
        ParsedStatement::If(x(), ParsedBlock { stmts: vec![] }, None)
    );
}

#[test]
fn a_new_block_is_empty() {
    assert_eq!(ParsedBlock::new(), ParsedBlock { stmts: vec![] });
    assert_eq!(
        ParsedBlock::of(vec![ParsedStatement::Continue]),
        ParsedBlock { stmts: vec![ParsedStatement::Continue] }
    );
}

#[test]
fn a_new_module_has_its_name_and_nothing_else() {
    let module = ParsedModule::new("geometry");
    assert_eq!(module.name, "geometry");
    assert!(module.imports.is_empty());
    assert!(module.structs.is_empty());
    assert!(module.enums.is_empty());
    assert!(module.procs.is_empty());
}

#[test]
fn complex_types_are_told_apart() {
    assert_ne!(ComplexType::Procedure, ComplexType::Struct);
    assert_ne!(ComplexType::Enum, ComplexType::Constant);
}

#[test]
fn a_builtin_names_a_type_without_path() {
    assert_eq!(
        Typechecker::primitive(PrimitiveType::Nothing),
        ParsedType::Name(vec![], String::from("nothing"))
    );
    assert_eq!(
        Typechecker::primitive(PrimitiveType::F64),
        ParsedType::Name(vec![], String::from("f64"))
    );
    assert_eq!(
        Typechecker::primitive(PrimitiveType::String),
        ParsedType::Name(vec![], String::from("string"))
    );
}

#[test]
fn a_type_description_has_a_name() {
    assert_eq!(TypeInfo::Primitive(PrimitiveType::U16, 2).name(), "u16");
    assert_eq!(TypeInfo::Struct(String::from("Point"), vec![]).name(), "Point");
    assert_eq!(TypeInfo::Enum(String::from("Color"), vec![]).name(), "Color");
    assert_eq!(
        TypeInfo::EnumVariant(
            String::from("Red"),
            vec![(String::from("shade"), Box::new(TypeInfo::Primitive(PrimitiveType::U8, 1)))]
        )
        .name(),
        "Red"
    );
    let _registry = Typechecker::new();
}

fn array_of(element: &str, size: &str) -> ParsedType {
    ParsedType::Array(
        Box::new(ParsedType::Name(vec![], String::from(element))),
        ParsedExpression::NumericConstant(NumericConstant::Integer(
            String::from(size),
            IntegerLiteralFormat::Decimal,
        )),
    )
}

#[test]
fn named_types_are_equal_where_path_and_name_are() {
    let point = |path: Vec<&str>| {
        ParsedType::Name(path.into_iter().map(String::from).collect(), String::from("Point"))
    };
    assert_eq!(point(vec![]), point(vec![]));
    assert_eq!(point(vec!["geometry"]), point(vec!["geometry"]));
    assert_ne!(point(vec!["geometry"]), point(vec![]));
    assert_ne!(point(vec!["geometry"]), point(vec!["shapes"]));
    assert_ne!(point(vec!["*"]), point(vec!["*", "*"]));
    assert_ne!(point(vec![]), ParsedType::Name(vec![], String::from("point")));
}

#[test]
fn array_types_are_equal_where_element_and_size_are() {
    assert_eq!(array_of("u8", "16"), array_of("u8", "16"));
    assert_ne!(array_of("u8", "16"), array_of("u8", "32"));
    assert_ne!(array_of("u8", "16"), array_of("i8", "16"));
    assert_ne!(array_of("u8", "16"), ParsedType::Name(vec![], String::from("u8")));
    assert_ne!(ParsedType::Name(vec![], String::from("u8")), array_of("u8", "16"));
}

#[test]
fn expressions_are_equal_where_their_trees_are() {
    let x = || ParsedExpression::Var(String::from("x"));
    let y = || ParsedExpression::Var(String::from("y"));
    assert_eq!(
        ParsedExpression::binary(x(), BinaryOperator::Add, y()),
        ParsedExpression::binary(x(), BinaryOperator::Add, y())
    );
    assert_ne!(
        ParsedExpression::binary(x(), BinaryOperator::Add, y()),
        ParsedExpression::binary(y(), BinaryOperator::Add, x())
    );
    assert_ne!(
        ParsedExpression::binary(x(), BinaryOperator::Add, y()),
        ParsedExpression::binary(x(), BinaryOperator::Subtract, y())
    );
    assert_ne!(x(), ParsedExpression::StringLiteral(String::from("x")));
    assert_ne!(
        ParsedExpression::unary(x(), UnaryOperator::PreIncrement),
        ParsedExpression::unary(x(), UnaryOperator::PostIncrement)
    );
    assert_ne!(
        ParsedExpression::unary(x(), UnaryOperator::type_cast(array_of("u8", "1"))),
        ParsedExpression::unary(x(), UnaryOperator::type_cast(array_of("u8", "2")))
    );
    assert_ne!(
        ParsedExpression::call(ParsedProcCall::new(String::from("f"), vec![])),
        ParsedExpression::call(ParsedProcCall::new(
            String::from("f"),
            vec![ParsedVarDecl::new(ParsedType::named(vec![], String::new()), String::from("a"), x())]
        ))
    );
    assert_ne!(ParsedExpression::CharLiteral(1), ParsedExpression::Bool(true));
}

#[test]
fn statements_are_equal_where_their_trees_are() {
    let x = || ParsedExpression::Var(String::from("x"));
    let body = |s: ParsedStatement| ParsedBlock::of(vec![s]);
    assert_eq!(
        ParsedStatement::conditional(x(), body(ParsedStatement::Break), None),
        ParsedStatement::conditional(x(), body(ParsedStatement::Break), None)
    );
    assert_ne!(
        ParsedStatement::conditional(x(), body(ParsedStatement::Break), None),
        ParsedStatement::conditional(x(), body(ParsedStatement::Continue), None)
    );
    assert_ne!(
        ParsedStatement::conditional(x(), body(ParsedStatement::Break), None),
        ParsedStatement::conditional(
            x(),
            body(ParsedStatement::Break),
            Some(ParsedStatement::Break)
        )
    );
    assert_ne!(
        body(ParsedStatement::Break),
        ParsedBlock::of(vec![ParsedStatement::Break, ParsedStatement::Break])
    );
    assert_ne!(ParsedStatement::Return(x()), ParsedStatement::Expr(x()));
    assert_ne!(
        ParsedStatement::WhileLoop(x(), ParsedBlock::new()),
        ParsedStatement::InfiniteLoop(ParsedBlock::new())
    );
}

#[test]
fn a_copy_is_equal_to_what_it_was_copied_from() {
    let x = || ParsedExpression::Var(String::from("x"));
    let cast = ParsedExpression::unary(x(), UnaryOperator::type_cast(array_of("u8", "4")));
    let call = ParsedExpression::call(ParsedProcCall::new(
        String::from("f"),
        vec![ParsedVarDecl::new(array_of("i16", "2"), String::from("a"), cast)],
    ));
    let range =
        ParsedExpression::range(RangeExprBound::Exclusive, x(), call, RangeExprBound::Inclusive);
    let statement = ParsedStatement::conditional(
        range,
        ParsedBlock::of(vec![ParsedStatement::Return(x()), ParsedStatement::Continue]),
        Some(ParsedStatement::Block(ParsedBlock::new())),
    );
    let copy = statement.clone();
    assert_eq!(copy, statement);
    let module = ParsedModule::new("main");
    assert_eq!(module.clone(), module);
}
