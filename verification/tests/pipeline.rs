use mask::code::Const;
use mask::code::Instr;
use mask::compiler::Compiler;
use mask::data::Data;
use mask::data::Item;
use mask::error::CheckErrorKind;
use mask::error::CompileErrorKind;
use mask::float::Float;
use mask::heap::Heap;
use mask::lexer::float_literals;
use mask::lexer::try_lex;
use mask::lexer::Token;
use mask::module::Module;
use mask::module::ModuleErrorKind;
use mask::module::check_tokens;
use mask::module::digest;
use mask::module::hash_source;
use mask::module::same_bytes;
use mask::module::version;
use mask::parser::parse;
use mask::parser::Node;
use mask::parser::ParseErrorKind;
use mask::parser::Place;
use mask::parser::Var;
use mask::semck::SemChecker;
use mask::span::Span;

fn tree(source: &str) -> Node {
    let floats: Vec<Float> = float_literals(source)
        .iter()
        .map(|text| Float::from_bits(text.parse::<f64>().unwrap().to_bits()))
        .collect();
    parse(try_lex(source, &floats).unwrap()).unwrap()
}

fn checked(source: &str) -> Result<Node, CheckErrorKind> {
    let mut node = tree(source);
    let mut checker = SemChecker::new();
    checker.check(&mut node).map(|_| node)
}

fn compiled(source: &str) -> Compiler {
    let node = checked(source).unwrap();
    let mut compiler = Compiler::new();
    assert_eq!(compiler.compile(&node), Ok(()));
    compiler
}

fn block(nodes: Vec<Node>) -> Box<Node> {
    Box::new(Node::Block(nodes))
}

fn name(s: &str) -> Box<Node> {
    Box::new(Node::Name(String::from(s)))
}

fn text(s: &str) -> Const {
    Const::Str(String::from(s))
}

#[test]
fn check_folds_if_chains() {
    let folded = checked("if a\n  pass\nelse if b\n  pass\nelse if c\n  pass\nelse\n  x = 1\npass");
    let innermost = Node::If {
        cond: name("c"),
        body: block(vec![Node::Pass]),
        els: Some(block(vec![Node::Assn {
            lhs: Place::Single(name("x")),
            rhs: Box::new(Node::Int(1)),
        }])),
    };
    let middle = Node::If { cond: name("b"), body: block(vec![Node::Pass]), els: Some(Box::new(innermost)) };
    let outer = Node::If { cond: name("a"), body: block(vec![Node::Pass]), els: Some(Box::new(middle)) };
    assert_eq!(folded, Ok(Node::Block(vec![outer, Node::Pass])));
}

#[test]
fn check_is_idempotent() {
    let sources = [
        "if a\n  pass\nelse if b\n  pass\nelse\n  pass",
        "loop\n  if a\n    break\n  else\n    continue",
        "f = fn(x)\n  if x\n    return 1\n  else\n    return 2\nwhile f(1)\n  pass",
    ];
    for source in sources {
        let once = checked(source).unwrap();
        let mut twice = once.clone();
        assert_eq!(SemChecker::new().check(&mut twice), Ok(()));
        assert_eq!(once, twice, "{}", source);
    }
}

#[test]
fn check_rejects_else_without_if() {
    assert_eq!(checked("else\n  pass"), Err(CheckErrorKind::MissingIf));
    assert_eq!(checked("else if a\n  pass"), Err(CheckErrorKind::MissingIf));
    assert_eq!(checked("if a\n  pass\nx = 1\nelse\n  pass"), Err(CheckErrorKind::MissingIf));
    assert_eq!(
        checked("if a\n  pass\nelse\n  pass\nelse\n  pass"),
        Err(CheckErrorKind::MissingIf)
    );
    assert_eq!(checked("loop\n  else\n    pass"), Err(CheckErrorKind::MissingIf));
    assert_eq!(checked("break\nelse\n  pass"), Err(CheckErrorKind::MissingIf));
}

#[test]
fn check_rejects_jumps_outside_loops() {
    assert_eq!(checked("break"), Err(CheckErrorKind::NotInLoop));
    assert_eq!(checked("continue"), Err(CheckErrorKind::NotInLoop));
    assert_eq!(checked("if a\n  break"), Err(CheckErrorKind::NotInLoop));
    assert_eq!(checked("if a\n  pass\nelse\n  break"), Err(CheckErrorKind::NotInLoop));
    assert_eq!(checked("loop\n  f = fn()\n    break"), Err(CheckErrorKind::NotInLoop));
    assert_eq!(
        checked("while true\n  x = |y| y\n  return fn()\n    continue"),
        Err(CheckErrorKind::NotInLoop)
    );
    assert_eq!(checked("loop\n  loop\n    pass\n  break").map(|_| ()), Ok(()));
    assert_eq!(checked("for x in y\n  if x\n    break\n  continue").map(|_| ()), Ok(()));
    assert_eq!(checked("while a\n  catch\n    break").map(|_| ()), Ok(()));
}

#[test]
fn check_rejects_bad_targets() {
    assert_eq!(checked("1 = 2"), Err(CheckErrorKind::NotPlace));
    assert_eq!(checked("f() = 2"), Err(CheckErrorKind::NotPlace));
    assert_eq!(checked("[a, 1] = 2"), Err(CheckErrorKind::NotPlace));
    assert_eq!(checked("a = 2").map(|_| ()), Ok(()));
    assert_eq!(checked("a.b = 2").map(|_| ()), Ok(()));
    assert_eq!(checked("a[1] = 2").map(|_| ()), Ok(()));
    assert_eq!(checked(".a = 2").map(|_| ()), Ok(()));
    assert_eq!(checked("[a, [b.c, ..d]] = 2").map(|_| ()), Ok(()));
}

#[test]
fn check_leaves_a_failed_tree_as_pass() {
    let mut node = tree("break");
    assert_eq!(SemChecker::new().check(&mut node), Err(CheckErrorKind::NotInLoop));
    assert_eq!(node, Node::Pass);
}

#[test]
fn compile_interns_constants_once() {
    let compiler = compiled("x = 'a'\ny = 'a'\nz = 1\nx = 1\nprint(x)\nw = 1.5\nv = 1.5");
    for i in 0..compiler.consts.len() {
        for j in 0..i {
            assert_ne!(compiler.consts[i], compiler.consts[j]);
        }
    }
    assert_eq!(
        compiler.consts,
        vec![
            Const::Null,
            text("a"),
            text("x"),
            text("y"),
            Const::Int(1),
            text("z"),
            text("print"),
            Const::Float(Float::from_bits(1.5f64.to_bits())),
            text("w"),
            text("v"),
        ]
    );
}

#[test]
fn compile_get_const_gives_the_first_index() {
    let mut compiler = Compiler::new();
    assert_eq!(compiler.get_const(Const::Int(7)), 0);
    assert_eq!(compiler.get_const(Const::Null), 1);
    assert_eq!(compiler.get_const(Const::Int(7)), 0);
    assert_eq!(compiler.get_const(Const::Bool(true)), 2);
    assert_eq!(compiler.get_const(Const::Null), 1);
    assert_eq!(compiler.consts.len(), 3);
}

#[test]
fn compile_assignment_and_call() {
    let compiler = compiled("x = 1\nprint(x)");
    assert_eq!(compiler.consts, vec![Const::Null, Const::Int(1), text("x"), text("print")]);
    assert_eq!(
        compiler.block,
        vec![
            Instr::PushConst(1),
            Instr::PushConst(2),
            Instr::PushScope,
            Instr::SetKey,
            Instr::PushConst(2),
            Instr::PushScope,
            Instr::Get,
            Instr::PushConst(3),
            Instr::PushScope,
            Instr::Get,
            Instr::Call,
            Instr::Pop,
            Instr::PushConst(0),
        ]
    );
    assert!(compiler.funcs.is_empty());
}

#[test]
fn compile_control_flow() {
    let compiler = compiled("while a\n  pass\nif b\n  c\nelse\n  d");
    assert_eq!(
        compiler.block,
        vec![
            Instr::Loop(vec![
                Instr::PushConst(1),
                Instr::PushScope,
                Instr::Get,
                Instr::IfElse(vec![], vec![Instr::Break]),
            ]),
            Instr::PushConst(3),
            Instr::PushScope,
            Instr::Get,
            Instr::IfElse(
                vec![Instr::PushConst(2), Instr::PushScope, Instr::Get, Instr::Pop],
                vec![Instr::PushConst(4), Instr::PushScope, Instr::Get, Instr::Pop],
            ),
            Instr::PushConst(0),
        ]
    );
    assert_eq!(compiler.consts, vec![Const::Null, text("a"), text("c"), text("b"), text("d")]);
}

#[test]
fn compile_functions_and_chains() {
    let compiler = compiled("f = fn(a)\n  return a < 1 < 2\ng = |x| x and ..y");
    assert_eq!(
        compiler.funcs,
        vec![
            Instr::Returnable(vec![
                Instr::PushConst(1),
                Instr::PushScope,
                Instr::SetKey,
                Instr::Returnable(vec![
                    Instr::PushConst(1),
                    Instr::PushScope,
                    Instr::Get,
                    Instr::PushConst(2),
                    Instr::CmpOp(Token::Lt, true),
                    Instr::PushConst(3),
                    Instr::CmpOp(Token::Lt, false),
                ]),
                Instr::Return,
                Instr::PushConst(0),
            ]),
            Instr::Returnable(vec![
                Instr::PushConst(5),
                Instr::PushScope,
                Instr::SetKey,
                Instr::Returnable(vec![
                    Instr::PushConst(5),
                    Instr::PushScope,
                    Instr::Get,
                    Instr::LogicOp(Token::And),
                    Instr::PushConst(6),
                    Instr::PushScope,
                    Instr::UnOp(Token::Mul),
                    Instr::UnOp(Token::Mul),
                    Instr::Get,
                ]),
                Instr::Return,
                Instr::PushConst(0),
            ]),
        ]
    );
    assert_eq!(compiler.block[0], Instr::PushFunc { id: 0, nargs: 1 });
    assert_eq!(compiler.block[4], Instr::PushFunc { id: 1, nargs: 1 });
}

#[test]
fn compile_for_loop_and_method_call() {
    let compiler = compiled("for i in it\n  o:m(i, 2)");
    assert_eq!(
        compiler.block,
        vec![
            Instr::PushConst(1),
            Instr::PushScope,
            Instr::Get,
            Instr::Loop(vec![
                Instr::Dup,
                Instr::Call,
                Instr::ForBreak,
                Instr::PushConst(2),
                Instr::PushScope,
                Instr::SetKey,
                Instr::PushConst(3),
                Instr::PushConst(2),
                Instr::PushScope,
                Instr::Get,
                Instr::PushConst(4),
                Instr::PushConst(5),
                Instr::PushScope,
                Instr::Get,
                Instr::MethodGet,
                Instr::Call,
                Instr::Pop,
            ]),
            Instr::Pop,
            Instr::PushConst(0),
        ]
    );
}

#[test]
fn compile_rejects_what_it_cannot_lower() {
    let mut compiler = Compiler::new();
    assert_eq!(compiler.compile(&tree("[a, b] = c")), Err(CompileErrorKind::MultiPlace));
    let mut compiler = Compiler::new();
    assert_eq!(compiler.compile(&tree("for [a, b] in c\n  pass")), Err(CompileErrorKind::MultiDecl));
    let mut compiler = Compiler::new();
    let empty = Node::LogicExpr { nodes: Vec::new(), ops: Vec::new() };
    assert_eq!(compiler.compile(&empty), Err(CompileErrorKind::EmptyChain));
    let mut compiler = Compiler::new();
    let lone = Node::CmpExpr { nodes: vec![Node::Int(1)], ops: Vec::new() };
    assert_eq!(compiler.compile(&lone), Err(CompileErrorKind::EmptyChain));
    let mut compiler = Compiler::new();
    let stray = Node::Else { body: Box::new(Node::Int(1)) };
    assert_eq!(compiler.compile(&stray), Ok(()));
    assert_eq!(compiler.block, vec![Instr::PushConst(0)]);
}

#[test]
fn module_errors_by_stage() {
    let none = Vec::new();
    assert_eq!(Module::new("m", "99999999999999999999", &none), Err(ModuleErrorKind::Unreadable));
    assert_eq!(Module::new("m", "x = 1.5", &none), Err(ModuleErrorKind::Unreadable));
    assert_eq!(
        Module::new("m", "x = ", &none),
        Err(ModuleErrorKind::ParseError(ParseErrorKind::UnexpectedToken(Token::End)))
    );
    assert_eq!(
        Module::new("m", "continue", &none),
        Err(ModuleErrorKind::CheckError(CheckErrorKind::NotInLoop))
    );
    assert_eq!(
        Module::new("m", "[a, b] = 1", &none),
        Err(ModuleErrorKind::CompileError(CompileErrorKind::MultiPlace))
    );
    let module = Module::new("m", "x = 1", &none).unwrap();
    assert_eq!(module.name, "m");
    assert_eq!(module.consts, vec![Const::Null, Const::Int(1), text("x")]);
    assert_eq!(Module::from_string("pass", &none).unwrap().name, "_anon");
    assert_eq!(ModuleErrorKind::Unreadable.describe(), "Unreadable");
    assert_eq!(
        ModuleErrorKind::ParseError(ParseErrorKind::UnusedPlaces).describe(),
        "ParseError(UnusedPlaces)"
    );
    assert_eq!(
        ModuleErrorKind::CompileError(CompileErrorKind::MultiDecl).describe(),
        "CompileError(MultiDecl)"
    );
}

#[test]
fn heap_lookup_falls_through_the_chain() {
    let mut heap = Heap::new();
    let outer = Data::new_table(&mut heap).into_item();
    let inner = Item { val: Data::new_table(&mut heap), sup: Some(Box::new(outer.clone())) };
    let key = |s: &str| Data::Str(String::from(s));
    outer.set_key(&mut heap, key("x"), Data::Int(1).into_item());
    outer.set_key(&mut heap, key("y"), Data::Int(2).into_item());
    assert_eq!(inner.get_key(&heap, &key("x")).val, Data::Int(1));
    inner.set_key(&mut heap, key("x"), Data::Int(10).into_item());
    assert_eq!(inner.get_key(&heap, &key("x")).val, Data::Int(10));
    assert_eq!(outer.get_key(&heap, &key("x")).val, Data::Int(1));
    assert_eq!(inner.get_key(&heap, &key("y")).val, Data::Int(2));
    assert_eq!(inner.get_key(&heap, &key("z")).val, Data::Null);
    let number = Item { val: Data::Int(5), sup: Some(Box::new(inner.clone())) };
    number.set_key(&mut heap, key("w"), Data::Bool(true).into_item());
    assert_eq!(inner.get_key(&heap, &key("w")).val, Data::Bool(true));
    assert_eq!(outer.get_key(&heap, &key("w")).val, Data::Null);
    assert!(inner.val.contains_key(&heap, &key("w")));
    assert!(!Data::Int(5).contains_key(&heap, &key("w")));
    assert!(!Data::Table(99).contains_key(&heap, &key("w")));
    assert_eq!(Data::Table(99).get_key(&heap, &key("w")).val, Data::Null);
}

#[test]
fn heap_tables_can_hold_themselves() {
    let mut heap = Heap::new();
    let t = Data::new_table(&mut heap).into_item();
    t.set_key(&mut heap, t.val.clone(), t.clone());
    assert_eq!(t.get_key(&heap, &t.val), t);
    assert_eq!(t.get_key(&heap, &t.val).get_key(&heap, &t.val), t);
    assert_eq!(t.to_string(), Some(String::from("table[0]")));
    assert_eq!(heap.tables[0].entries.len(), 1);
    t.set_key(&mut heap, t.val.clone(), Data::Null.into_item());
    assert_eq!(heap.tables[0].entries.len(), 1);
}

#[test]
fn data_text_and_truth() {
    assert_eq!(Data::Null.to_string(), Some(String::from("null")));
    assert_eq!(Data::Int(-9223372036854775808).to_string(), Some(String::from("-9223372036854775808")));
    assert_eq!(Data::Int(0).to_string(), Some(String::from("0")));
    assert_eq!(Data::Int(1203).to_string(), Some(String::from("1203")));
    assert_eq!(Data::Bool(true).to_string(), Some(String::from("true")));
    assert_eq!(Data::Table(255).to_string(), Some(String::from("table[ff]")));
    assert_eq!(Data::Float(Float { bits: 0 }).to_string(), None);
    assert_eq!(
        Data::Func { id: 12, nargs: 3, module: String::from("m") }.to_string(),
        Some(String::from("func[12/3 from m]"))
    );
    assert!(Data::Int(0).truth());
    assert!(Data::Str(String::new()).truth());
    assert!(!Data::Null.truth());
    assert!(!Data::Bool(false).truth());
    assert!(Data::Null.null());
    assert!(!Data::Bool(false).null());
    assert!(Data::Table(0).can_set_key());
    assert!(!Data::Int(0).can_set_key());
    assert_eq!(Data::Int(3).to_const(), Const::Int(3));
    assert_eq!(Data::Table(3).to_const(), Const::Null);
    assert_eq!(Const::Int(3).into_data(), Data::Int(3));
    assert_eq!(Const::Bool(true).to_item(), Item { val: Data::Bool(true), sup: None });
    assert_eq!(text("s").into_item().val, Data::Str(String::from("s")));
}

#[test]
fn span_parts() {
    let whole = Span { low: 10, high: 30 };
    assert_eq!(whole.subspan(2, 5), Span { low: 12, high: 15 });
    assert_eq!(whole.subspan(0, 20), whole);
    assert_eq!(whole.len(), 20);
    let _ = Var::Single(String::new());
}

#[test]
fn module_is_stamped_with_its_source() {
    let none = Vec::new();
    let module = Module::new("m", "x = 1", &none).unwrap();
    assert_eq!(module.version, vec![0, 0, 1, 0]);
    assert_eq!(module.version, version());
    assert_eq!(module.file_hash, vec![89, 112, 86, 70, 247, 58, 173, 43]);
    assert_eq!(hash_source(""), vec![228, 166, 160, 87, 116, 121, 178, 180]);
    assert_ne!(module.file_hash, String::from("x = 1").into_bytes());
    assert!(module.is_current("x = 1"));
    assert!(!module.is_current("x = 2"));
    let mut old = Module::new("m", "x = 1", &none).unwrap();
    old.version = vec![0, 0, 0, 9];
    assert!(!old.is_current("x = 1"));
    assert!(same_bytes(&vec![1, 2], &vec![1, 2]));
    assert!(!same_bytes(&vec![1, 2], &vec![1, 3]));
    assert!(!same_bytes(&vec![1, 2], &vec![1]));
}

#[test]
fn compile_interns_both_zeros_as_one() {
    let mut compiler = Compiler::new();
    let zero = Float::from_bits(0.0f64.to_bits());
    let minus = Float::from_bits((-0.0f64).to_bits());
    assert_eq!(compiler.get_const(Const::Float(zero)), 0);
    assert_eq!(compiler.get_const(Const::Float(minus)), 0);
    assert_eq!(compiler.get_const(Const::Int(0)), 1);
    assert_eq!(compiler.consts.len(), 2);
    assert_eq!(hash_source("abc").len(), 8);
}

fn lone_else() -> Node {
    Node::Else { body: Box::new(Node::Pass) }
}

fn lone_else_if() -> Node {
    Node::ElseIf { cond: name("a"), body: Box::new(Node::Pass) }
}

fn rejected(mut tree: Node) -> bool {
    let r = SemChecker::new().check(&mut tree);
    r == Err(CheckErrorKind::MissingIf) && tree == Node::Pass
}

#[test]
fn check_rejects_else_that_is_no_statement() {
    assert!(rejected(lone_else()));
    assert!(rejected(lone_else_if()));
    assert!(rejected(Node::Else { body: Box::new(Node::Break) }));
    assert!(rejected(Node::If { cond: name("a"), body: Box::new(lone_else()), els: None }));
    assert!(rejected(Node::If { cond: Box::new(lone_else_if()), body: block(vec![Node::Pass]), els: None }));
    assert!(rejected(Node::If {
        cond: name("a"),
        body: block(vec![Node::Pass]),
        els: Some(Box::new(lone_else())),
    }));
    assert!(rejected(Node::Expr(Box::new(lone_else()))));
    assert!(rejected(Node::Return(Some(Box::new(lone_else_if())))));
    assert!(rejected(Node::Loop { body: Box::new(lone_else()) }));
    assert!(rejected(Node::While { expr: name("a"), body: Box::new(lone_else()) }));
    assert!(rejected(Node::FuncDef { params: Vec::new(), body: Box::new(lone_else_if()) }));
    assert!(rejected(Node::Catch { body: Box::new(lone_else()) }));
    assert!(rejected(Node::BinExpr {
        lhs: Box::new(lone_else()),
        op: Token::Add,
        rhs: Box::new(Node::Int(1)),
    }));
    assert!(rejected(Node::FuncCall { func: name("f"), args: vec![Node::Int(1), lone_else()] }));
    assert!(rejected(Node::CmpExpr { nodes: vec![Node::Int(1), lone_else_if()], ops: vec![Token::Lt] }));
    assert!(rejected(Node::Assn { lhs: Place::Single(name("x")), rhs: Box::new(lone_else()) }));
    assert!(rejected(Node::Block(vec![Node::Block(vec![lone_else()])])));
    assert!(rejected(Node::Block(vec![Node::Else {
        body: Box::new(Node::If { cond: name("a"), body: block(vec![Node::Pass]), els: None }),
    }])));
}

#[test]
fn check_attaches_only_to_an_open_chain() {
    let closed = || Node::If {
        cond: name("a"),
        body: block(vec![Node::Pass]),
        els: Some(block(vec![Node::Pass])),
    };
    let late = || Node::ElseIf { cond: name("b"), body: block(vec![Node::Pass]) };
    assert!(rejected(Node::Block(vec![closed(), late()])));
    assert!(rejected(Node::Block(vec![closed(), lone_else()])));
    assert!(rejected(Node::Block(vec![closed(), Node::ElseIf { cond: name("b"), body: Box::new(Node::Break) }])));

    let spliced = || Node::If {
        cond: name("a"),
        body: block(vec![Node::Pass]),
        els: Some(Box::new(Node::If { cond: name("b"), body: block(vec![Node::Pass]), els: None })),
    };
    assert!(rejected(Node::Block(vec![spliced(), late()])));
    assert!(rejected(Node::Block(vec![spliced(), lone_else()])));
    assert!(rejected(Node::Block(vec![Node::Pass, late()])));

    let head = Node::If { cond: name("a"), body: block(vec![Node::Pass]), els: None };
    let mut tree = Node::Block(vec![head, late(), late(), Node::Else { body: block(vec![Node::Int(7)]) }]);
    assert_eq!(SemChecker::new().check(&mut tree), Ok(()));
    let third = Node::If {
        cond: name("b"),
        body: block(vec![Node::Pass]),
        els: Some(block(vec![Node::Int(7)])),
    };
    let second = Node::If { cond: name("b"), body: block(vec![Node::Pass]), els: Some(Box::new(third)) };
    let first = Node::If { cond: name("a"), body: block(vec![Node::Pass]), els: Some(Box::new(second)) };
    assert_eq!(tree, Node::Block(vec![first]));

    let checker = SemChecker::new();
    assert!(!checker.can_fold(&vec![closed(), late()]));
    assert!(!checker.can_fold(&vec![spliced(), late()]));
    assert!(checker.can_fold(&vec![closed(), Node::Pass]));
    assert!(checker.can_fold(&vec![spliced(), Node::Pass]));
    assert_eq!(checker.check_ifs(vec![closed(), lone_else()]), Err(CheckErrorKind::MissingIf));
    assert_eq!(checker.check_ifs(vec![Node::Pass, lone_else()]), Err(CheckErrorKind::MissingIf));
    assert_eq!(checker.check_ifs(vec![spliced(), Node::Pass]), Ok(vec![spliced(), Node::Pass]));
}

#[test]
fn check_leaves_no_else_in_nested_blocks() {
    let source = "f = fn(x)\n  loop\n    if x\n      break\n    else if y\n      pass\n    else\n      continue\nif a\n  if b\n    pass\n  else\n    pass";
    let text = format!("{:?}", checked(source).unwrap());
    assert!(!text.contains("Else"), "{}", text);
}

#[test]
fn module_is_made_in_stages() {
    let source = "x = 1\nif x\n  print(x)\nelse\n  print(2)";
    let none = Vec::new();
    let whole = Module::new("m", source, &none).unwrap();
    let tokens = try_lex(source, &none).unwrap();
    let ast = check_tokens(tokens).unwrap();
    assert_eq!(ast, checked(source).unwrap());
    assert_eq!(Module::from_tree("m", source, &ast), Ok(whole));
    let bad = try_lex("x = ", &none).unwrap();
    assert_eq!(
        check_tokens(bad),
        Err(ModuleErrorKind::ParseError(ParseErrorKind::UnexpectedToken(Token::End)))
    );
    let stray = try_lex("else\n  pass", &none).unwrap();
    assert_eq!(check_tokens(stray), Err(ModuleErrorKind::CheckError(CheckErrorKind::MissingIf)));
    assert_eq!(
        Module::from_tree("m", "", &tree("[a, b] = c")),
        Err(ModuleErrorKind::CompileError(CompileErrorKind::MultiPlace))
    );
    assert_eq!(digest(&Vec::new()), vec![228, 166, 160, 87, 116, 121, 178, 180]);
    assert_eq!(digest(&String::from("x = 1").into_bytes()), vec![89, 112, 86, 70, 247, 58, 173, 43]);
    assert_eq!(digest(&vec![1, 2, 3]).len(), 8);
    assert_ne!(digest(&vec![1, 2, 3, 4, 5, 6, 7, 8]), vec![1, 2, 3, 4, 5, 6, 7, 8]);
}
