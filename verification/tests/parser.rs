use mask::float::Float;
use mask::lexer::float_literals;
use mask::lexer::try_lex;
use mask::lexer::Token;
use mask::parser::parse;
use mask::parser::parse_atom;
use mask::parser::parse_bin_expr;
use mask::parser::parse_cmp_expr;
use mask::parser::parse_decl;
use mask::parser::parse_fn_args;
use mask::parser::parse_il_expr;
use mask::parser::parse_logic_expr;
use mask::parser::parse_place;
use mask::parser::parse_quark;
use mask::parser::parse_simple;
use mask::parser::parse_stmt;
use mask::parser::parse_super;
use mask::parser::parse_un_expr;
use mask::parser::Node;
use mask::parser::Op;
use mask::parser::ParseErrorKind;
use mask::parser::ParseIter;
use mask::parser::Place;
use mask::parser::Var;
use mask::parser::op_precedence;
use mask::parser::require_token;
use mask::span::Span;
use mask::span::Spanned;
use std::fmt::Debug;

fn float(x: f64) -> Float {
    Float::from_bits(x.to_bits())
}

fn get_parse_tokens(source: &str) -> Vec<Spanned> {
    let floats: Vec<Float> = float_literals(source)
        .iter()
        .map(|text| float(text.parse::<f64>().unwrap()))
        .collect();
    try_lex(source, &floats).unwrap()
}

fn test_parse<T: Debug + PartialEq>(
    source: &str,
    func: &dyn Fn(&mut ParseIter) -> Result<T, ParseErrorKind>,
    expect: Result<T, ParseErrorKind>,
) {
    let tokens = get_parse_tokens(source);
    let mut it = ParseIter::new(tokens);

    assert_eq!(func(&mut it), expect);

    assert_eq!(func(&mut it), Err(ParseErrorKind::UnexpectedToken(Token::End)));
    it.next();

    assert_eq!(func(&mut it), Err(ParseErrorKind::UnexpectedToken(Token::EOF)));
    it.next();

    assert_eq!(func(&mut it), Err(ParseErrorKind::UnexpectedEOF));
}

fn name(s: &str) -> Node {
    Node::Name(String::from(s))
}

fn text(s: &str) -> Node {
    Node::Str(String::from(s))
}

#[test]
fn test_quark() {
    test_parse("null", &parse_quark, Ok(Node::Null));
    test_parse("true", &parse_quark, Ok(Node::Bool(true)));
    test_parse("false", &parse_quark, Ok(Node::Bool(false)));
    test_parse("1.3", &parse_quark, Ok(Node::Float(float(1.3))));
    test_parse("0.3", &parse_quark, Ok(Node::Float(float(0.3))));
    test_parse("2", &parse_quark, Ok(Node::Int(2)));
    test_parse("3", &parse_quark, Ok(Node::Int(3)));
    test_parse("name", &parse_quark, Ok(Node::Name(String::from("name"))));
}

#[test]
fn test_atom() {
    test_parse("null", &parse_atom, Ok(Node::Null));

    test_parse("(null)", &parse_atom, Ok(Node::Null));
}

#[test]
fn test_simple() {
    test_parse("foo", &parse_simple, Ok(Node::Name(String::from("foo"))));
    test_parse(
        "foo.bar",
        &parse_simple,
        Ok(Node::Index {
            lhs: Box::new(Node::Name(String::from("foo"))),
            rhs: Box::new(Node::Str(String::from("bar"))),
        }),
    );
    test_parse(
        "foo[bar]",
        &parse_simple,
        Ok(Node::Index {
            lhs: Box::new(Node::Name(String::from("foo"))),
            rhs: Box::new(Node::Name(String::from("bar"))),
        }),
    );
    test_parse(
        "foo()",
        &parse_simple,
        Ok(Node::FuncCall {
            func: Box::new(Node::Name(String::from("foo"))),
            args: Vec::new(),
        }),
    );
    test_parse(
        "foo:bar()",
        &parse_simple,
        Ok(Node::MethodCall {
            owner: Box::new(Node::Name(String::from("foo"))),
            method: Box::new(Node::Str(String::from("bar"))),
            args: Vec::new(),
        }),
    );
    test_parse(
        "foo.bar()",
        &parse_simple,
        Ok(Node::FuncCall {
            func: Box::new(Node::Index {
                lhs: Box::new(Node::Name(String::from("foo"))),
                rhs: Box::new(Node::Str(String::from("bar"))),
            }),
            args: Vec::new(),
        }),
    );
    test_parse(
        "foo.bar[baz]:qux()",
        &parse_simple,
        Ok(Node::MethodCall {
            owner: Box::new(Node::Index {
                lhs: Box::new(Node::Index {
                    lhs: Box::new(Node::Name(String::from("foo"))),
                    rhs: Box::new(Node::Str(String::from("bar"))),
                }),
                rhs: Box::new(Node::Name(String::from("baz"))),
            }),
            method: Box::new(Node::Str(String::from("qux"))),
            args: Vec::new(),
        }),
    );
}

#[test]
fn test_super() {
    test_parse("foo", &parse_super, Ok(Node::Name(String::from("foo"))));
    test_parse(
        ".foo",
        &parse_super,
        Ok(Node::Super(1, Box::new(Node::Str(String::from("foo"))))),
    );
    test_parse(
        "..foo",
        &parse_super,
        Ok(Node::Super(2, Box::new(Node::Str(String::from("foo"))))),
    );
}

#[test]
fn test_fn_args() {
    test_parse("()", &parse_fn_args, Ok(Vec::new()));
    test_parse("(x)", &parse_fn_args, Ok(vec![Node::Name(String::from("x"))]));
    test_parse("(x,)", &parse_fn_args, Ok(vec![Node::Name(String::from("x"))]));
    test_parse(
        "(x,y)",
        &parse_fn_args,
        Ok(vec![Node::Name(String::from("x")), Node::Name(String::from("y"))]),
    );
    test_parse(
        "(x,y,)",
        &parse_fn_args,
        Ok(vec![Node::Name(String::from("x")), Node::Name(String::from("y"))]),
    );
}

#[test]
fn test_un_expr() {
    test_parse("5", &parse_un_expr, Ok(Node::Int(5)));

    test_parse(
        "foo()",
        &parse_un_expr,
        Ok(Node::FuncCall {
            func: Box::new(Node::Name(String::from("foo"))),
            args: Vec::new(),
        }),
    );

    test_parse(
        "-5",
        &parse_un_expr,
        Ok(Node::UnExpr { op: Token::Sub, val: Box::new(Node::Int(5)) }),
    );

    test_parse(
        "-foo.bar",
        &parse_un_expr,
        Ok(Node::UnExpr {
            op: Token::Sub,
            val: Box::new(Node::Index {
                lhs: Box::new(Node::Name(String::from("foo"))),
                rhs: Box::new(Node::Str(String::from("bar"))),
            }),
        }),
    );

    test_parse(
        "!-5",
        &parse_un_expr,
        Ok(Node::UnExpr {
            op: Token::Not,
            val: Box::new(Node::UnExpr { op: Token::Sub, val: Box::new(Node::Int(5)) }),
        }),
    );
}

#[test]
fn test_logic_expr() {
    test_parse(
        "1 and 2",
        &parse_logic_expr,
        Ok(Node::LogicExpr { nodes: vec![Node::Int(1), Node::Int(2)], ops: vec![Token::And] }),
    );

    test_parse(
        "1 or 2",
        &parse_logic_expr,
        Ok(Node::LogicExpr { nodes: vec![Node::Int(1), Node::Int(2)], ops: vec![Token::Or] }),
    );

    test_parse(
        "1 and 2 or 3",
        &parse_logic_expr,
        Ok(Node::LogicExpr {
            nodes: vec![Node::Int(1), Node::Int(2), Node::Int(3)],
            ops: vec![Token::And, Token::Or],
        }),
    );
}

#[test]
fn test_cmp_expr() {
    test_parse(
        "1 < 2",
        &parse_cmp_expr,
        Ok(Node::CmpExpr { nodes: vec![Node::Int(1), Node::Int(2)], ops: vec![Token::Lt] }),
    );

    test_parse(
        "1 > 2",
        &parse_cmp_expr,
        Ok(Node::CmpExpr { nodes: vec![Node::Int(1), Node::Int(2)], ops: vec![Token::Gt] }),
    );

    test_parse(
        "1 + 2 > 2 * 4",
        &parse_cmp_expr,
        Ok(Node::CmpExpr {
            nodes: vec![
                Node::BinExpr {
                    lhs: Box::new(Node::Int(1)),
                    op: Token::Add,
                    rhs: Box::new(Node::Int(2)),
                },
                Node::BinExpr {
                    lhs: Box::new(Node::Int(2)),
                    op: Token::Mul,
                    rhs: Box::new(Node::Int(4)),
                },
            ],
            ops: vec![Token::Gt],
        }),
    );

    test_parse(
        "1 < 2 < 3",
        &parse_cmp_expr,
        Ok(Node::CmpExpr {
            nodes: vec![Node::Int(1), Node::Int(2), Node::Int(3)],
            ops: vec![Token::Lt, Token::Lt],
        }),
    );
}

#[test]
fn test_bin_expr() {
    test_parse(
        "1 + 2",
        &parse_bin_expr,
        Ok(Node::BinExpr {
            lhs: Box::new(Node::Int(1)),
            op: Token::Add,
            rhs: Box::new(Node::Int(2)),
        }),
    );

    test_parse(
        "(1 + 2)",
        &parse_bin_expr,
        Ok(Node::BinExpr {
            lhs: Box::new(Node::Int(1)),
            op: Token::Add,
            rhs: Box::new(Node::Int(2)),
        }),
    );

    test_parse(
        "1 + 2 * 3",
        &parse_bin_expr,
        Ok(Node::BinExpr {
            lhs: Box::new(Node::Int(1)),
            op: Token::Add,
            rhs: Box::new(Node::BinExpr {
                lhs: Box::new(Node::Int(2)),
                op: Token::Mul,
                rhs: Box::new(Node::Int(3)),
            }),
        }),
    );

    test_parse(
        "1 * 2 + 3",
        &parse_bin_expr,
        Ok(Node::BinExpr {
            lhs: Box::new(Node::BinExpr {
                lhs: Box::new(Node::Int(1)),
                op: Token::Mul,
                rhs: Box::new(Node::Int(2)),
            }),
            op: Token::Add,
            rhs: Box::new(Node::Int(3)),
        }),
    );
}

#[test]
fn test_fn_expr() {
    test_parse(
        "|| 5",
        &parse_il_expr,
        Ok(Node::FuncDef {
            params: Vec::new(),
            body: Box::new(Node::Return(Some(Box::new(Node::Int(5))))),
        }),
    );

    test_parse(
        "|x| 5",
        &parse_il_expr,
        Ok(Node::FuncDef {
            params: vec![String::from("x")],
            body: Box::new(Node::Return(Some(Box::new(Node::Int(5))))),
        }),
    );

    test_parse(
        "|x,| 5",
        &parse_il_expr,
        Ok(Node::FuncDef {
            params: vec![String::from("x")],
            body: Box::new(Node::Return(Some(Box::new(Node::Int(5))))),
        }),
    );

    test_parse(
        "|x,y| 5",
        &parse_il_expr,
        Ok(Node::FuncDef {
            params: vec![String::from("x"), String::from("y")],
            body: Box::new(Node::Return(Some(Box::new(Node::Int(5))))),
        }),
    );
}

#[test]
fn test_decl() {
    test_parse("x", &parse_decl, Ok(Var::Single(String::from("x"))));

    test_parse("[x]", &parse_decl, Ok(Var::Multi(vec![Var::Single(String::from("x"))])));

    test_parse(
        "[x, y]",
        &parse_decl,
        Ok(Var::Multi(vec![Var::Single(String::from("x")), Var::Single(String::from("y"))])),
    );

    test_parse(
        "[[x, y], z]",
        &parse_decl,
        Ok(Var::Multi(vec![
            Var::Multi(vec![Var::Single(String::from("x")), Var::Single(String::from("y"))]),
            Var::Single(String::from("z")),
        ])),
    );

    test_parse(
        "[x, [y, z]]",
        &parse_decl,
        Ok(Var::Multi(vec![
            Var::Single(String::from("x")),
            Var::Multi(vec![Var::Single(String::from("y")), Var::Single(String::from("z"))]),
        ])),
    );

    test_parse(
        "[[x], [y]]",
        &parse_decl,
        Ok(Var::Multi(vec![
            Var::Multi(vec![Var::Single(String::from("x"))]),
            Var::Multi(vec![Var::Single(String::from("y"))]),
        ])),
    );

    test_parse(
        "[x, [y, z], q]",
        &parse_decl,
        Ok(Var::Multi(vec![
            Var::Single(String::from("x")),
            Var::Multi(vec![Var::Single(String::from("y")), Var::Single(String::from("z"))]),
            Var::Single(String::from("q")),
        ])),
    );
}

#[test]
fn test_return_stmt() {
    test_parse("return", &parse_stmt, Ok(Node::Return(None)));

    test_parse("return 5", &parse_stmt, Ok(Node::Return(Some(Box::new(Node::Int(5))))));

    test_parse(
        "return fn()
       return 5",
        &parse_stmt,
        Ok(Node::Return(Some(Box::new(Node::FuncDef {
            params: Vec::new(),
            body: Box::new(Node::Block(vec![Node::Return(Some(Box::new(Node::Int(5))))])),
        })))),
    );
}

#[test]
fn test_if_stmt() {
    test_parse(
        "if true
       pass",
        &parse_stmt,
        Ok(Node::If {
            cond: Box::new(Node::Bool(true)),
            body: Box::new(Node::Block(vec![Node::Pass])),
            els: None,
        }),
    );

    test_parse(
        "else if true
       pass",
        &parse_stmt,
        Ok(Node::ElseIf {
            cond: Box::new(Node::Bool(true)),
            body: Box::new(Node::Block(vec![Node::Pass])),
        }),
    );

    test_parse(
        "else
       pass",
        &parse_stmt,
        Ok(Node::Else { body: Box::new(Node::Block(vec![Node::Pass])) }),
    );
}

#[test]
fn test_for_stmt() {
    test_parse(
        "for x in true
       pass",
        &parse_stmt,
        Ok(Node::For {
            decl: Var::Single(String::from("x")),
            expr: Box::new(Node::Bool(true)),
            body: Box::new(Node::Block(vec![Node::Pass])),
        }),
    );
}

#[test]
fn test_while_stmt() {
    test_parse(
        "while true
       pass",
        &parse_stmt,
        Ok(Node::While {
            expr: Box::new(Node::Bool(true)),
            body: Box::new(Node::Block(vec![Node::Pass])),
        }),
    );
}

#[test]
fn test_loop_stmt() {
    test_parse(
        "loop
       pass",
        &parse_stmt,
        Ok(Node::Loop { body: Box::new(Node::Block(vec![Node::Pass])) }),
    );
}

#[test]
fn test_place() {
    test_parse(
        "x",
        &parse_place,
        Ok(Place::Single(Box::new(Node::Name(String::from("x"))))),
    );

    test_parse(
        "[x]",
        &parse_place,
        Ok(Place::Multi(vec![Place::Single(Box::new(Node::Name(String::from("x"))))])),
    );

    test_parse(
        "[x.y]",
        &parse_place,
        Ok(Place::Multi(vec![Place::Single(Box::new(Node::Index {
            lhs: Box::new(Node::Name(String::from("x"))),
            rhs: Box::new(Node::Str(String::from("y"))),
        }))])),
    );

    test_parse(
        "[x, y]",
        &parse_place,
        Ok(Place::Multi(vec![
            Place::Single(Box::new(Node::Name(String::from("x")))),
            Place::Single(Box::new(Node::Name(String::from("y")))),
        ])),
    );

    test_parse(
        "[[x, y], z]",
        &parse_place,
        Ok(Place::Multi(vec![
            Place::Multi(vec![
                Place::Single(Box::new(Node::Name(String::from("x")))),
                Place::Single(Box::new(Node::Name(String::from("y")))),
            ]),
            Place::Single(Box::new(Node::Name(String::from("z")))),
        ])),
    );

    test_parse(
        "[x, [y, z]]",
        &parse_place,
        Ok(Place::Multi(vec![
            Place::Single(Box::new(Node::Name(String::from("x")))),
            Place::Multi(vec![
                Place::Single(Box::new(Node::Name(String::from("y")))),
                Place::Single(Box::new(Node::Name(String::from("z")))),
            ]),
        ])),
    );

    test_parse(
        "[[x], [y]]",
        &parse_place,
        Ok(Place::Multi(vec![
            Place::Multi(vec![Place::Single(Box::new(Node::Name(String::from("x"))))]),
            Place::Multi(vec![Place::Single(Box::new(Node::Name(String::from("y"))))]),
        ])),
    );

    test_parse(
        "[x, [y, z], q]",
        &parse_place,
        Ok(Place::Multi(vec![
            Place::Single(Box::new(Node::Name(String::from("x")))),
            Place::Multi(vec![
                Place::Single(Box::new(Node::Name(String::from("y")))),
                Place::Single(Box::new(Node::Name(String::from("z")))),
            ]),
            Place::Single(Box::new(Node::Name(String::from("q")))),
        ])),
    );
}

fn bin(lhs: Node, op: Token, rhs: Node) -> Node {
    Node::BinExpr { lhs: Box::new(lhs), op, rhs: Box::new(rhs) }
}

#[test]
fn parse_precedence_of_sum_and_product() {
    for (a, b, c) in [(1, 2, 3), (0, 0, 0), (-0, 7, 9223372036854775807)] {
        let sum_first = format!("{} + {} * {}", a, b, c);
        test_parse(
            &sum_first,
            &parse_bin_expr,
            Ok(bin(Node::Int(a), Token::Add, bin(Node::Int(b), Token::Mul, Node::Int(c)))),
        );
        let product_first = format!("{} * {} + {}", a, b, c);
        test_parse(
            &product_first,
            &parse_bin_expr,
            Ok(bin(bin(Node::Int(a), Token::Mul, Node::Int(b)), Token::Add, Node::Int(c))),
        );
    }
}

#[test]
fn parse_operator_table() {
    assert_eq!(op_precedence(&Token::Dol), Op::Left(10));
    assert_eq!(op_precedence(&Token::Add), Op::Left(20));
    assert_eq!(op_precedence(&Token::Sub), Op::Left(20));
    assert_eq!(op_precedence(&Token::Mul), Op::Left(30));
    assert_eq!(op_precedence(&Token::Div), Op::Left(30));
    assert_eq!(op_precedence(&Token::Car), Op::Right(40));
    assert_eq!(op_precedence(&Token::Sup), Op::Right(50));
    assert_eq!(op_precedence(&Token::Eql), Op::NoOp);
}

#[test]
fn parse_left_and_right_grouping() {
    test_parse(
        "1 - 2 - 3",
        &parse_bin_expr,
        Ok(bin(bin(Node::Int(1), Token::Sub, Node::Int(2)), Token::Sub, Node::Int(3))),
    );
    test_parse(
        "1 ^ 2 ^ 3",
        &parse_bin_expr,
        Ok(bin(Node::Int(1), Token::Car, bin(Node::Int(2), Token::Car, Node::Int(3)))),
    );
    test_parse(
        "a $ b + c",
        &parse_bin_expr,
        Ok(bin(name("a"), Token::Dol, bin(name("b"), Token::Add, name("c")))),
    );
}

#[test]
fn parse_program_and_errors() {
    let program = parse(get_parse_tokens("x = 1\nprint(x)\n"));
    assert_eq!(
        program,
        Ok(Node::Block(vec![
            Node::Assn { lhs: Place::Single(Box::new(name("x"))), rhs: Box::new(Node::Int(1)) },
            Node::Expr(Box::new(Node::FuncCall {
                func: Box::new(name("print")),
                args: vec![name("x")],
            })),
        ]))
    );
    assert_eq!(parse(get_parse_tokens("")), Ok(Node::Block(Vec::new())));
    assert_eq!(
        parse(get_parse_tokens("x = )")),
        Err(ParseErrorKind::UnexpectedToken(Token::Par))
    );
    assert_eq!(parse(get_parse_tokens("[a, b]")), Err(ParseErrorKind::UnusedPlaces));
    assert_eq!(
        parse(get_parse_tokens("\tx")),
        Err(ParseErrorKind::UnexpectedToken(Token::Tab))
    );
    assert_eq!(
        parse(get_parse_tokens("'open")),
        Err(ParseErrorKind::UnexpectedToken(Token::UnclosedStr(String::from("open"))))
    );
    assert_eq!(parse(get_parse_tokens("if x")), Err(ParseErrorKind::UnexpectedToken(Token::End)));
}

#[test]
fn parse_trailing_commas_in_lists() {
    test_parse(
        "[x, y,]",
        &parse_decl,
        Ok(Var::Multi(vec![Var::Single(String::from("x")), Var::Single(String::from("y"))])),
    );
    test_parse(
        "[x,]",
        &parse_place,
        Ok(Place::Multi(vec![Place::Single(Box::new(name("x")))])),
    );
}

#[test]
fn parse_table_keyword_is_the_builtin() {
    test_parse(
        "table()",
        &parse_simple,
        Ok(Node::FuncCall { func: Box::new(name("table")), args: Vec::new() }),
    );
    test_parse("local", &parse_quark, Ok(Node::Local));
    test_parse("x:y(1)", &parse_simple, Ok(Node::MethodCall {
        owner: Box::new(name("x")),
        method: Box::new(text("y")),
        args: vec![Node::Int(1)],
    }));
}

#[test]
fn require_token_gives_the_span_of_the_token() {
    let mut it = ParseIter::new(get_parse_tokens("ab   ("));
    assert_eq!(
        require_token(&mut it, Token::Pal),
        Err(ParseErrorKind::UnexpectedToken(Token::Name(String::from("ab"))))
    );
    assert_eq!(it.pos, 0);
    assert_eq!(
        require_token(&mut it, Token::Name(String::from("ab"))),
        Ok(Span { low: 0, high: 2 })
    );
    assert_eq!(require_token(&mut it, Token::Pal), Ok(Span { low: 5, high: 6 }));
    assert_eq!(it.pos, 2);
}

fn whole(x: i64) -> Node {
    Node::Int(x)
}

#[test]
fn parse_three_levels_of_precedence() {
    test_parse(
        "1 + 2 * 3 ^ 4",
        &parse_bin_expr,
        Ok(bin(whole(1), Token::Add, bin(whole(2), Token::Mul, bin(whole(3), Token::Car, whole(4))))),
    );
    test_parse(
        "a $ b + c * d",
        &parse_bin_expr,
        Ok(bin(name("a"), Token::Dol, bin(name("b"), Token::Add, bin(name("c"), Token::Mul, name("d"))))),
    );
    test_parse(
        "1 ^ 2 ^ 3 ^ 4",
        &parse_bin_expr,
        Ok(bin(whole(1), Token::Car, bin(whole(2), Token::Car, bin(whole(3), Token::Car, whole(4))))),
    );
    test_parse(
        "1 - 2 - 3 - 4",
        &parse_bin_expr,
        Ok(bin(bin(bin(whole(1), Token::Sub, whole(2)), Token::Sub, whole(3)), Token::Sub, whole(4))),
    );
    test_parse(
        "1 + 2 * 3 - 4",
        &parse_bin_expr,
        Ok(bin(bin(whole(1), Token::Add, bin(whole(2), Token::Mul, whole(3))), Token::Sub, whole(4))),
    );
    test_parse(
        "1 * 2 ^ 3 + 4 / 5",
        &parse_bin_expr,
        Ok(bin(
            bin(whole(1), Token::Mul, bin(whole(2), Token::Car, whole(3))),
            Token::Add,
            bin(whole(4), Token::Div, whole(5)),
        )),
    );
}

#[test]
fn parse_keeps_parentheses_whole() {
    test_parse(
        "1 * (2 + 3) ^ 4",
        &parse_bin_expr,
        Ok(bin(whole(1), Token::Mul, bin(bin(whole(2), Token::Add, whole(3)), Token::Car, whole(4)))),
    );
    test_parse(
        "(1 + 2) * 3",
        &parse_bin_expr,
        Ok(bin(bin(whole(1), Token::Add, whole(2)), Token::Mul, whole(3))),
    );
    test_parse(
        "1 + (2 + 3) * 4",
        &parse_bin_expr,
        Ok(bin(whole(1), Token::Add, bin(bin(whole(2), Token::Add, whole(3)), Token::Mul, whole(4)))),
    );
}
