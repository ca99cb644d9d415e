use mask::code::Const;
use mask::code::Instr;
use mask::data::Data;
use mask::data::Item;
use mask::engine::Action;
use mask::engine::ArithOp;
use mask::engine::Engine;
use mask::engine::EngineErrorKind;
use mask::engine::ExecuteControl;
use mask::engine::Request;
use mask::engine::bin;
use mask::engine::compare;
use mask::engine::ops::Outcome;
use mask::engine::un;
use mask::float::Float;
use mask::lexer::Token;
use mask::module::Module;
use mask::module::version;
use mask::lexer::float_literals;

fn bits(x: f64) -> Float {
    Float::from_bits(x.to_bits())
}

fn number(f: Float) -> f64 {
    f64::from_bits(f.bits)
}

fn values(source: &str) -> Vec<Float> {
    float_literals(source).iter().map(|text| bits(text.parse::<f64>().unwrap())).collect()
}

/// Runs the engine to its end, doing for it what only a host can do.
fn drive(engine: &mut Engine, out: &mut Vec<String>) -> Option<ExecuteControl> {
    let mut rounds = 0;
    loop {
        rounds += 1;
        assert!(rounds < 100_000, "the program does not end");
        match engine.ex_many(1000) {
            Action::Next => {}
            Action::Done(signal) => return signal,
            Action::Print(line) => out.push(line),
            Action::Ask(Request::Convert(x)) => engine.answer_float(bits(x as f64)),
            Action::Ask(Request::Arith(op, a, b)) => {
                let (a, b) = (number(a), number(b));
                let r = match op {
                    ArithOp::Add => a + b,
                    ArithOp::Sub => a - b,
                    ArithOp::Mul => a * b,
                    ArithOp::Div => a / b,
                };
                engine.answer_float(bits(r));
            }
            Action::Ask(Request::Format(x)) => engine.answer_text(format!("{}", number(x))),
            Action::Ask(Request::Import(name)) => {
                let found = if name == "lib.ms" { Some("shared = 41\n") } else { None };
                match found {
                    Some(source) => {
                        let _ = engine.import(&name, source, &values(source));
                    }
                    None => {
                        let _ = engine.fail_import(format!("no such file: {}", name));
                    }
                }
            }
        }
    }
}

fn run(source: &str) -> (Vec<String>, Option<ExecuteControl>, Engine) {
    let mut engine = Engine::new();
    let mut out = Vec::new();
    assert_eq!(engine.import("test.ms", source, &values(source)), Ok(()));
    let signal = drive(&mut engine, &mut out);
    (out, signal, engine)
}

fn output(source: &str) -> Vec<String> {
    let (out, signal, engine) = run(source);
    assert_eq!(signal, None, "{}", source);
    assert_eq!(engine.data_stack.len(), 1, "{}", source);
    assert_eq!(engine.data_stack[0].val, Data::Null);
    out
}

fn lines(text: &[&str]) -> Vec<String> {
    text.iter().map(|s| String::from(*s)).collect()
}

#[test]
fn run_print_hello() {
    let (out, signal, engine) = run("print('hello')");
    assert_eq!(out, lines(&["hello"]));
    assert_eq!(signal, None);
    assert_eq!(engine.data_stack.len(), 1);
    assert_eq!(engine.data_stack[0].val, Data::Null);
    assert_eq!(engine.data_stack[0].sup, None);
}

#[test]
fn run_assignment_and_sum() {
    assert_eq!(output("x = 1\nx = x + 2\nprint(x)"), lines(&["3"]));
}

#[test]
fn run_function_call() {
    assert_eq!(output("f = fn(a, b)\n  return a + b\nprint(f(2, 3))"), lines(&["5"]));
}

#[test]
fn run_while_loop() {
    assert_eq!(output("x = 0\nwhile x < 3\n  x = x + 1\nprint(x)"), lines(&["3"]));
}

#[test]
fn run_catch_keeps_the_program_alive() {
    let source = "catch\n  panic()\nprint('after')";
    let mut engine = Engine::new();
    let mut out = Vec::new();
    engine.push(Data::Str(String::from("boom")).into_item());
    assert_eq!(engine.import("test.ms", source, &Vec::new()), Ok(()));
    assert_eq!(drive(&mut engine, &mut out), None);
    assert_eq!(out, lines(&["after"]));
}

#[test]
fn run_tables() {
    assert_eq!(output("t = table()\nt.a = 1\nt.b = 2\nprint(t.a + t.b)"), lines(&["3"]));
}

#[test]
fn run_leaves_one_value() {
    for source in ["", "pass", "x = 1", "f = fn()\n  pass\nf()\nf()", "t = table()\nt.x = t"] {
        let (_, signal, engine) = run(source);
        assert_eq!(signal, None);
        assert_eq!(engine.data_stack.len(), 1, "{}", source);
    }
}

#[test]
fn run_uncaught_exception_reaches_the_host() {
    let (out, signal, engine) = run("print(1)\nassert(false)\nprint(2)");
    assert_eq!(out, lines(&["1"]));
    assert_eq!(signal, Some(ExecuteControl::Exception));
    assert_eq!(
        engine.data_stack[engine.data_stack.len() - 1].val,
        Data::Str(String::from("Assertion failure"))
    );
}

#[test]
fn run_exceptions_by_kind() {
    let cases = [
        ("x = 1\nx()", "Not callable"),
        ("x = 1 + 'a'", "Bad arguments"),
        ("x = -'a'", "Bad arguments"),
        ("x = 1 < 'a'", "Bad arguments"),
        ("x = ~1", "Bad operator"),
        ("x = 1 ^ 2", "Bad operator"),
        ("import(1)", "Bad arguments"),
        ("import('nowhere.ms')", "no such file: nowhere.ms"),
    ];
    for (source, message) in cases {
        let (_, signal, engine) = run(source);
        assert_eq!(signal, Some(ExecuteControl::Exception), "{}", source);
        assert_eq!(
            engine.data_stack[engine.data_stack.len() - 1].val,
            Data::Str(String::from(message)),
            "{}",
            source
        );
    }
}

#[test]
fn run_catch_gives_the_exception_as_a_value() {
    assert_eq!(
        output("e = catch\n  x = 1 + 'a'\nprint(e)\nf = catch\n  pass\nprint(f)"),
        lines(&["Bad arguments", "null"])
    );
}

#[test]
fn run_comparison_chain_short_circuit() {
    let source = "n = 0\nf = fn(x)\n  ..n = ..n + 1\n  return x\n\
                  print(f(1) < f(2) < f(3))\nprint(n)\n\
                  n = 0\nprint(f(2) < f(1) < f(3))\nprint(n)\n\
                  n = 0\nprint(f(1) < f(3) < f(2))\nprint(n)";
    assert_eq!(output(source), lines(&["true", "3", "false", "2", "false", "3"]));
}

#[test]
fn run_logic_chain_short_circuit() {
    let source = "print(1 and 2)\nprint(null and 2)\nprint(false or 3)\nprint(1 or 2)\n\
                  print(1 and null or 5)";
    assert_eq!(output(source), lines(&["2", "null", "3", "1", "5"]));
}

#[test]
fn run_scope_fall_through_and_shadowing() {
    let source = "x = 1\ny = 2\nf = fn()\n  x = 10\n  print(x)\n  print(y)\nf()\nprint(x)";
    assert_eq!(output(source), lines(&["10", "2", "1"]));
}

#[test]
fn run_closures_see_their_scope() {
    let source = "make = fn(n)\n  return fn()\n    return n\ng = make(7)\nprint(g())";
    assert_eq!(output(source), lines(&["7"]));
}

#[test]
fn run_cyclic_tables() {
    let source = "t = table()\nt.me = t\nu = table()\nu.t = t\nt.u = u\n\
                  t.me.me.x = 5\nprint(t.x)\nprint(u.t.u.t.x)\nprint(t.me == t)\nprint(t == u)";
    assert_eq!(output(source), lines(&["5", "5", "true", "false"]));
    let (out, _, _) = run("t = table()\nt.me = t\nprint(t)\nprint(t.me)");
    assert_eq!(out.len(), 2);
    assert_eq!(out[0], out[1]);
    assert!(out[0].starts_with("table["));
}

#[test]
fn run_integer_arithmetic() {
    let source = "print(2 + 3 * 4)\nprint(7 - 10)\nprint(-5)\nprint(9223372036854775807 + 1)";
    assert_eq!(output(source), lines(&["14", "-3", "-5", "-9223372036854775808"]));
}

#[test]
fn run_float_arithmetic_goes_through_the_host() {
    let source = "print(1.5 + 2)\nprint(1 / 4)\nprint(2 * 0.5)\nprint(0.1 + 0.2)\nprint(-1.5)\n\
                  print(1 < 1.5)\nprint(2 == 2.0)\nprint(1.5 >= 2)\nprint(3 - 0.5)";
    assert_eq!(
        output(source),
        lines(&["3.5", "0.25", "1", "0.30000000000000004", "-1.5", "true", "true", "false", "2.5"])
    );
}

#[test]
fn run_comparisons() {
    let source = "print(1 == 1)\nprint(1 != 1)\nprint('a' < 'b')\nprint('ab' < 'a')\n\
                  print('a' <= 'a')\nprint(false < true)\nprint(null == null)\nprint(1 == '1')\n\
                  print(1 != '1')\nprint(2 > 1)\nprint(2 >= 3)\nprint('' < 'a')";
    assert_eq!(
        output(source),
        lines(&[
            "true", "false", "true", "false", "true", "true", "true", "false", "true", "true",
            "false", "true"
        ])
    );
}

#[test]
fn run_text_forms() {
    let source = "print(null)\nprint(true)\nprint(false)\nprint(-12)\nprint('s')\nprint(1.5)\n\
                  print(1 $ 'a' $ 2.5)\nprint($7)\nf = fn(a, b)\n  pass\nprint(f)\nprint(print)";
    assert_eq!(
        output(source),
        lines(&[
            "null",
            "true",
            "false",
            "-12",
            "s",
            "1.5",
            "1a2.5",
            "7",
            "func[0/2 from test.ms]",
            "rustfunc[print]"
        ])
    );
}

#[test]
fn run_truthiness() {
    let source = "if 0\n  print('zero')\nif ''\n  print('empty')\nif null\n  print('null')\n\
                  else if false\n  print('false')\nelse\n  print('neither')\nprint(!0)\nprint(!null)";
    assert_eq!(output(source), lines(&["zero", "empty", "neither", "false", "true"]));
}

#[test]
fn run_loops_break_and_continue() {
    let source = "x = 0\nloop\n  x = x + 1\n  if x < 3\n    continue\n  break\nprint(x)";
    assert_eq!(output(source), lines(&["3"]));
}

#[test]
fn run_for_over_an_iterator() {
    let source = "n = 0\nnext = fn()\n  ..n = ..n + 1\n  if ..n > 3\n    return null\n  return ..n\n\
                  for i in next\n  print(i)\nprint('done')";
    assert_eq!(output(source), lines(&["1", "2", "3", "done"]));
}

#[test]
fn run_methods_get_their_owner() {
    let source = "t = table()\nt.v = 4\nt.get = fn(self)\n  return self.v\nprint(t:get())";
    assert_eq!(output(source), lines(&["4"]));
}

#[test]
fn run_super_links() {
    let source = "base = table()\nbase.hi = 'hello'\nobj = table() :: base\nprint(obj.hi)\n\
                  obj.hi = 'mine'\nprint(obj.hi)\nprint(base.hi)\nprint((*obj).hi)\nprint(*base)";
    assert_eq!(output(source), lines(&["hello", "mine", "hello", "hello", "null"]));
}

#[test]
fn run_import_loads_another_module() {
    let (out, signal, engine) = run("print(import('lib.ms'))\nprint('back')");
    assert_eq!(signal, None);
    assert_eq!(out, lines(&["null", "back"]));
    assert_eq!(engine.mods.len(), 2);
    assert_eq!(engine.mods[1].name, "lib.ms");
}

#[test]
fn run_builtin_get_and_set() {
    let source = "t = table()\nprint(set(t, 'k', 5))\nprint(get(t, 'k'))\nprint(get(t, 'missing'))";
    assert_eq!(output(source), lines(&["5", "5", "null"]));
}

#[test]
fn import_of_bad_source_raises() {
    let mut engine = Engine::new();
    assert_eq!(
        engine.import("bad.ms", "break", &Vec::new()),
        Err(ExecuteControl::Exception)
    );
    assert_eq!(engine.data_stack[0].val, Data::Str(String::from("CheckError(NotInLoop)")));
    assert_eq!(engine.signal, Some(ExecuteControl::Exception));
    let mut out = Vec::new();
    assert_eq!(drive(&mut engine, &mut out), Some(ExecuteControl::Exception));
}

#[test]
fn engine_push_pop_and_panic() {
    let mut engine = Engine::new();
    engine.push(Data::Int(1).into_item());
    engine.push(Data::Int(2).into_item());
    assert_eq!(engine.pop(), Ok(Item { val: Data::Int(2), sup: None }));
    assert_eq!(engine.pop(), Ok(Item { val: Data::Int(1), sup: None }));
    assert_eq!(engine.pop(), Err(ExecuteControl::Exception));
    assert_eq!(engine.data_stack[0].val, Data::Str(String::from("Empty stack")));
    let r: Result<(), ExecuteControl> = engine.panic(Data::Int(9).into_item());
    assert_eq!(r, Err(ExecuteControl::Exception));
    assert_eq!(engine.data_stack[1].val, Data::Int(9));
}

#[test]
fn engine_steps_one_instruction_at_a_time() {
    let mut engine = Engine::new();
    assert_eq!(engine.step(), Action::Done(None));
    assert_eq!(engine.import("m", "x = 1", &Vec::new()), Ok(()));
    assert_eq!(engine.frames.len(), 1);
    assert_eq!(engine.step(), Action::Next);
    assert_eq!(engine.frames[0].pc, 1);
    assert_eq!(engine.data_stack.len(), 1);
    assert_eq!(engine.ex_many(0), Action::Next);
    assert_eq!(engine.frames[0].pc, 1);
    assert_eq!(engine.ex_many(100), Action::Done(None));
    assert_eq!(engine.fault, None::<EngineErrorKind>);
}

fn module_of(code: Vec<Instr>, consts: Vec<Const>) -> Module {
    Module {
        version: version(),
        file_hash: Vec::new(),
        name: String::from("made"),
        code,
        funcs: Vec::new(),
        consts,
    }
}

fn fault_of(code: Vec<Instr>, consts: Vec<Const>) -> (Option<ExecuteControl>, Option<EngineErrorKind>) {
    let mut engine = Engine::new();
    engine.load_module(module_of(code, consts));
    let mut out = Vec::new();
    let signal = drive(&mut engine, &mut out);
    (signal, engine.fault)
}

#[test]
fn engine_stops_on_code_that_no_compiler_makes() {
    assert_eq!(
        fault_of(vec![Instr::PushConst(3)], vec![Const::Null]),
        (Some(ExecuteControl::Other), Some(EngineErrorKind::BadConst))
    );
    assert_eq!(
        fault_of(vec![Instr::PushFunc { id: 7, nargs: 0 }, Instr::Call], Vec::new()),
        (Some(ExecuteControl::Other), Some(EngineErrorKind::BadFunc))
    );
    let mut engine = Engine::new();
    engine.load_module(module_of(vec![Instr::Call], Vec::new()));
    engine.push(Data::Func { id: 0, nargs: 0, module: String::from("nowhere") }.into_item());
    let mut out = Vec::new();
    assert_eq!(drive(&mut engine, &mut out), Some(ExecuteControl::Other));
    assert_eq!(engine.fault, Some(EngineErrorKind::BadModule));
    let mut engine = Engine::new();
    engine.load_module(module_of(vec![Instr::PushScope], Vec::new()));
    engine.frames[0].module = 9;
    engine.frames[0].code = vec![Instr::PushConst(0)];
    assert_eq!(drive(&mut engine, &mut out), Some(ExecuteControl::Other));
    assert_eq!(engine.fault, Some(EngineErrorKind::BadModule));
}

#[test]
fn engine_empty_stack_is_an_exception() {
    for code in [
        vec![Instr::Pop],
        vec![Instr::Dup],
        vec![Instr::Get],
        vec![Instr::SetKey],
        vec![Instr::Call],
        vec![Instr::If(Vec::new())],
        vec![Instr::BinOp(Token::Add)],
        vec![Instr::UnOp(Token::Not)],
        vec![Instr::CmpOp(Token::Lt, false)],
        vec![Instr::LogicOp(Token::And)],
        vec![Instr::PushConst(0), Instr::BinOp(Token::Add)],
    ] {
        let mut engine = Engine::new();
        engine.load_module(module_of(code, vec![Const::Int(1)]));
        let mut out = Vec::new();
        assert_eq!(drive(&mut engine, &mut out), Some(ExecuteControl::Exception));
        assert_eq!(engine.data_stack.len(), 1);
        assert_eq!(engine.data_stack[0].val, Data::Str(String::from("Empty stack")));
    }
}

#[test]
fn engine_plain_instructions() {
    let code = vec![
        Instr::Nop,
        Instr::NewTable,
        Instr::Dup,
        Instr::PushConst(0),
        Instr::PushConst(1),
        Instr::MethodGet,
        Instr::Block(vec![Instr::Pop, Instr::Pop, Instr::ForBreak]),
    ];
    let mut engine = Engine::new();
    engine.load_module(module_of(code, vec![Const::Int(1), Const::Null]));
    let mut out = Vec::new();
    assert_eq!(drive(&mut engine, &mut out), None);
    assert_eq!(engine.data_stack.len(), 2);
    assert_eq!(engine.data_stack[0].val, engine.data_stack[1].val);
    assert_eq!(engine.data_stack[0].val, Data::Table(engine.heap.tables.len() - 1));
}

#[test]
fn operators_on_values() {
    let int = |x: i64| Data::Int(x);
    let text = |s: &str| Data::Str(String::from(s));
    let value = |o: Outcome| match o {
        Outcome::Value(v) => v,
        other => panic!("no value: {:?}", other),
    };
    assert_eq!(value(bin::add(&int(2), &int(3))), int(5));
    assert_eq!(value(bin::sub(&int(2), &int(3))), int(-1));
    assert_eq!(value(bin::mul(&int(-4), &int(3))), int(-12));
    assert_eq!(value(bin::mul(&int(i64::MAX), &int(2))), int(-2));
    assert_eq!(value(bin::sub(&int(i64::MIN), &int(1))), int(i64::MAX));
    assert!(matches!(bin::div(&int(1), &int(2)), Outcome::Convert { slot: 0, value: 2 }));
    assert!(matches!(bin::add(&int(1), &Data::Float(bits(2.0))), Outcome::Convert { slot: 1, value: 1 }));
    assert!(matches!(bin::add(&Data::Float(bits(2.0)), &int(7)), Outcome::Convert { slot: 0, value: 7 }));
    assert!(matches!(bin::add(&Data::Float(bits(2.0)), &Data::Float(bits(1.0))), Outcome::Arith { op: ArithOp::Add, .. }));
    assert!(matches!(bin::add(&int(1), &text("a")), Outcome::BadArguments));
    assert_eq!(value(bin::cat(&text("a"), &int(1))), text("a1"));
    assert_eq!(value(bin::cat(&Data::Null, &Data::Bool(false))), text("nullfalse"));
    assert!(matches!(bin::cat(&Data::Float(bits(1.0)), &text("a")), Outcome::Format { slot: 1, .. }));
    assert!(matches!(bin::cat(&Data::Float(bits(1.0)), &Data::Float(bits(1.0))), Outcome::Format { slot: 0, .. }));
    let linked = bin::sup(int(1).into_item(), int(2).into_item());
    assert_eq!(linked, Item { val: int(1), sup: Some(Box::new(int(2).into_item())) });
    assert_eq!(bin::sup(int(1).into_item(), Data::Null.into_item()), int(1).into_item());
    assert_eq!(un::mul(linked), int(2).into_item());
    assert_eq!(un::mul(int(1).into_item()), Data::Null.into_item());
    assert_eq!(value(un::sub(&int(5))), int(-5));
    assert_eq!(value(un::sub(&int(i64::MIN))), int(i64::MIN));
    assert_eq!(value(un::sub(&Data::Float(bits(1.5)))), Data::Float(bits(-1.5)));
    assert!(matches!(un::sub(&text("a")), Outcome::BadArguments));
    assert_eq!(un::not(&int(0)), Data::Bool(false));
    assert_eq!(un::not(&Data::Null), Data::Bool(true));
    assert_eq!(value(un::cat(&int(12))), text("12"));
    assert!(matches!(un::cat(&Data::Float(bits(1.0))), Outcome::Format { slot: 0, .. }));
    assert!(compare::eq_aux(&int(1), &int(1)));
    assert!(compare::eq_aux(&Data::Float(bits(0.0)), &Data::Float(bits(-0.0))));
    assert!(compare::eq_aux(&Data::Float(bits(f64::NAN)), &Data::Float(bits(f64::NAN))));
    assert!(compare::ne_aux(&int(1), &text("1")));
    assert!(!compare::eq_aux(&Data::Table(0), &Data::Table(1)));
    assert_eq!(compare::lt_aux(&int(1), &int(2)), Some(true));
    assert_eq!(compare::gt_aux(&int(1), &int(2)), Some(false));
    assert_eq!(compare::le_aux(&text("b"), &text("ab")), Some(false));
    assert_eq!(compare::ge_aux(&Data::Bool(true), &Data::Bool(true)), Some(true));
    assert_eq!(compare::lt_aux(&Data::Null, &Data::Null), None);
    assert_eq!(compare::ge_aux(&Data::Table(0), &Data::Table(0)), None);
    assert_eq!(value(compare::eq(&text("a"), &text("a"))), Data::Bool(true));
    assert_eq!(value(compare::ne(&Data::Null, &Data::Null)), Data::Bool(false));
    assert_eq!(value(compare::lt(&Data::Float(bits(-1.0)), &Data::Float(bits(0.5)))), Data::Bool(true));
    assert_eq!(value(compare::gt(&int(3), &int(3))), Data::Bool(false));
    assert_eq!(value(compare::le(&int(3), &int(3))), Data::Bool(true));
    assert_eq!(value(compare::ge(&int(2), &int(3))), Data::Bool(false));
    assert!(matches!(compare::lt(&int(1), &Data::Float(bits(1.0))), Outcome::Convert { slot: 1, value: 1 }));
    assert!(matches!(compare::lt(&int(1), &Data::Null), Outcome::BadArguments));
    assert!(matches!(compare::relate(&Token::Add, &int(1), &int(1)), Outcome::BadOperator));
}

#[test]
fn run_chain_keeps_the_operand_as_it_stood() {
    let source = "print(1.0 < 9007199254740993 <= 9007199254740992)\n\
                  print(1.5 < 2 == 2)\nprint(1 < 2.5 < 3)\nprint(3 > 2.5 > 2)\n\
                  print(1.0 < 9007199254740993 == 9007199254740993)";
    assert_eq!(output(source), lines(&["false", "true", "true", "true", "true"]));
}

#[test]
fn run_forgets_converted_operands() {
    let (out, signal, engine) = run("print(1 + 0.5)\nprint(1 < 0.5)\nprint(1 / 2)\nprint(2 == 2.0)");
    assert_eq!(signal, None);
    assert_eq!(out, lines(&["1.5", "false", "0.5", "true"]));
    assert_eq!(engine.lifted_top, None);
    assert_eq!(engine.lifted_below, None);
}

#[test]
fn engine_holds_the_float_beside_the_stack() {
    let code = vec![Instr::PushConst(0), Instr::PushConst(1), Instr::CmpOp(Token::Lt, true)];
    let mut engine = Engine::new();
    engine.load_module(module_of(code, vec![Const::Float(bits(1.0)), Const::Int(7)]));
    assert_eq!(engine.ex_many(10), Action::Ask(Request::Convert(7)));
    assert_eq!(engine.data_stack[1].val, Data::Int(7));
    engine.answer_float(bits(7.0));
    assert_eq!(engine.data_stack[1].val, Data::Int(7));
    assert_eq!(engine.lifted_top, Some(bits(7.0)));
    assert_eq!(engine.step(), Action::Next);
    assert_eq!(engine.data_stack.len(), 1);
    assert_eq!(engine.data_stack[0].val, Data::Int(7));
    assert_eq!(engine.lifted_top, None);
    assert_eq!(engine.signal, None);
}

#[test]
fn zeros_are_one_key_and_one_constant() {
    assert_eq!(output("t = table()\nt[0.0] = 1\nprint(t[-0.0])\nt[-0.0] = 2\nprint(t[0.0])"), lines(&["1", "2"]));
    let zero = Data::Float(bits(0.0));
    let minus = Data::Float(bits(-0.0));
    assert!(zero.same(&minus));
    assert!(Data::Float(bits(f64::NAN)).same(&Data::Float(bits(f64::NAN))));
    assert!(!zero.same(&Data::Int(0)));
    assert!(Const::Float(bits(0.0)).same(&Const::Float(bits(-0.0))));
    assert!(!Const::Float(bits(0.0)).same(&Const::Float(bits(1.0))));
    assert!(!Const::Float(bits(0.0)).same(&Const::Int(0)));
}

#[test]
fn mixed_operands_go_to_the_host() {
    let whole = Data::Int(3);
    let real = Data::Float(bits(3.0));
    assert!(matches!(compare::mixed_operand(&whole, &real), Some(Outcome::Convert { slot: 1, value: 3 })));
    assert!(matches!(compare::mixed_operand(&real, &whole), Some(Outcome::Convert { slot: 0, value: 3 })));
    assert!(compare::mixed_operand(&whole, &whole).is_none());
    assert!(compare::mixed_operand(&real, &real).is_none());
    assert!(matches!(compare::eq(&whole, &real), Outcome::Convert { slot: 1, value: 3 }));
    assert!(compare::eq_aux(&real, &real));
}

#[test]
fn run_can_leave_more_than_one_value() {
    let (_, signal, engine) = run("f = fn(a)\n  return a\nf(1, 2)");
    assert_eq!(signal, None);
    assert_eq!(engine.data_stack.len(), 2);
    let (_, signal, engine) = run("it = fn()\n  return 1\nf = fn()\n  for i in it\n    return i\nf()");
    assert_eq!(signal, None);
    assert_eq!(engine.data_stack.len(), 2);
    let (_, signal, engine) = run("x = 1 + assert(false)");
    assert_eq!(signal, Some(ExecuteControl::Exception));
    assert_eq!(engine.data_stack.len(), 2);
}

#[test]
fn run_second_module_of_a_name_replaces_the_first() {
    let mut engine = Engine::new();
    let mut out = Vec::new();
    let none = Vec::new();
    assert_eq!(engine.import("lib.ms", "f = fn()\n  return 1\nprint(f())", &none), Ok(()));
    assert_eq!(drive(&mut engine, &mut out), None);
    assert_eq!(engine.import("lib.ms", "g = fn()\n  return 2\nprint(g())", &none), Ok(()));
    assert_eq!(drive(&mut engine, &mut out), None);
    assert_eq!(out, lines(&["1", "2"]));
    assert_eq!(engine.mods.len(), 2);
    assert_eq!(engine.find_module(&String::from("lib.ms")), 1);
    assert_eq!(engine.find_module(&String::from("other.ms")), 2);
    assert_eq!(engine.import("other.ms", "pass", &none), Ok(()));
    assert_eq!(engine.find_module(&String::from("lib.ms")), 1);
    assert_eq!(engine.find_module(&String::from("other.ms")), 2);
    assert_eq!(engine.find_module(&String::from("none.ms")), 3);
}
