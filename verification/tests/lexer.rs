use mask::float::Float;
use mask::lexer::float_literals;
use mask::lexer::lex;
use mask::lexer::try_lex;
use mask::lexer::Token;
use mask::span::Span;
use mask::span::Spanned;

fn float(x: f64) -> Float {
    Float::from_bits(x.to_bits())
}

fn get_tokens(source: &str) -> Vec<Spanned> {
    let floats: Vec<Float> = float_literals(source)
        .iter()
        .map(|text| float(text.parse::<f64>().unwrap()))
        .collect();
    try_lex(source, &floats).unwrap()
}

fn nodes(source: &str) -> Vec<Token> {
    get_tokens(source).into_iter().map(|t| t.node).collect()
}

#[test]
fn lex_numbers() {
    let source = "0 5 05 5.3 1.234 1. 0. 0.0";
    let tokens = get_tokens(source);

    assert_eq!(tokens.len(), 10);
    assert_eq!(tokens[0].node, Token::Int(0));
    assert_eq!(tokens[1].node, Token::Int(5));
    assert_eq!(tokens[2].node, Token::Int(5));
    assert_eq!(tokens[3].node, Token::Float(float(5.3)));
    assert_eq!(tokens[4].node, Token::Float(float(1.234)));
    assert_eq!(tokens[5].node, Token::Float(float(1.0)));
    assert_eq!(tokens[6].node, Token::Float(float(0.0)));
    assert_eq!(tokens[7].node, Token::Float(float(0.0)));
    assert_eq!(tokens[8].node, Token::End);
    assert_eq!(tokens[9].node, Token::EOF);
}

#[test]
fn lex_string() {
    let source = "'hello' 'this\\nis\\nmultiline' 'this\\\\is\\\\escaped' 'this\\tis\\ttabbed' 'this
is
real
multiline' 'and this is unclosed";
    let tokens = get_tokens(source);

    assert_eq!(tokens.len(), 8);
    assert_eq!(tokens[0].node, Token::Str(String::from("hello")));
    assert_eq!(tokens[1].node, Token::Str(String::from("this\nis\nmultiline")));
    assert_eq!(tokens[2].node, Token::Str(String::from("this\\is\\escaped")));
    assert_eq!(tokens[3].node, Token::Str(String::from("this\tis\ttabbed")));
    assert_eq!(tokens[4].node, Token::Str(String::from("this\nis\nreal\nmultiline")));
    assert_eq!(tokens[5].node, Token::UnclosedStr(String::from("and this is unclosed")));
    assert_eq!(tokens[6].node, Token::End);
    assert_eq!(tokens[7].node, Token::EOF);
}

#[test]
fn lex_keywords() {
    let source = "and break catch continue else for fn if in loop or pass return while name true false null";
    let tokens = get_tokens(source);
    assert_eq!(tokens.len(), 20);
    assert_eq!(tokens[0].node, Token::And);
    assert_eq!(tokens[1].node, Token::Break);
    assert_eq!(tokens[2].node, Token::Catch);
    assert_eq!(tokens[3].node, Token::Continue);
    assert_eq!(tokens[4].node, Token::Else);
    assert_eq!(tokens[5].node, Token::For);
    assert_eq!(tokens[6].node, Token::Func);
    assert_eq!(tokens[7].node, Token::If);
    assert_eq!(tokens[8].node, Token::In);
    assert_eq!(tokens[9].node, Token::Loop);
    assert_eq!(tokens[10].node, Token::Or);
    assert_eq!(tokens[11].node, Token::Pass);
    assert_eq!(tokens[12].node, Token::Return);
    assert_eq!(tokens[13].node, Token::While);
    assert_eq!(tokens[14].node, Token::Name(String::from("name")));
    assert_eq!(tokens[15].node, Token::Bool(true));
    assert_eq!(tokens[16].node, Token::Bool(false));
    assert_eq!(tokens[17].node, Token::Null);
    assert_eq!(tokens[18].node, Token::End);
    assert_eq!(tokens[19].node, Token::EOF);
}

#[test]
fn lex_symbols() {
    let source = "-> = : : , . :: ; {} () [] +&@^/$*~!|%- == >= - > = <= < = != ! =";
    let tokens = get_tokens(source);
    assert_eq!(tokens.len(), 39);
    assert_eq!(tokens[0].node, Token::Arr);
    assert_eq!(tokens[1].node, Token::Ass);
    assert_eq!(tokens[2].node, Token::Col);
    assert_eq!(tokens[3].node, Token::Col);
    assert_eq!(tokens[4].node, Token::Com);
    assert_eq!(tokens[5].node, Token::Dot);
    assert_eq!(tokens[6].node, Token::Sup);
    assert_eq!(tokens[7].node, Token::Sem);

    assert_eq!(tokens[8].node, Token::Cul);
    assert_eq!(tokens[9].node, Token::Cur);
    assert_eq!(tokens[10].node, Token::Pal);
    assert_eq!(tokens[11].node, Token::Par);
    assert_eq!(tokens[12].node, Token::Sql);
    assert_eq!(tokens[13].node, Token::Sqr);

    assert_eq!(tokens[14].node, Token::Add);
    assert_eq!(tokens[15].node, Token::Amp);
    assert_eq!(tokens[16].node, Token::At);
    assert_eq!(tokens[17].node, Token::Car);
    assert_eq!(tokens[18].node, Token::Div);
    assert_eq!(tokens[19].node, Token::Dol);
    assert_eq!(tokens[20].node, Token::Mul);
    assert_eq!(tokens[21].node, Token::Neg);
    assert_eq!(tokens[22].node, Token::Not);
    assert_eq!(tokens[23].node, Token::Pipe);
    assert_eq!(tokens[24].node, Token::Pct);
    assert_eq!(tokens[25].node, Token::Sub);
    assert_eq!(tokens[26].node, Token::Eql);
    assert_eq!(tokens[27].node, Token::Ge);
    assert_eq!(tokens[28].node, Token::Sub);
    assert_eq!(tokens[29].node, Token::Gt);
    assert_eq!(tokens[30].node, Token::Ass);
    assert_eq!(tokens[31].node, Token::Le);
    assert_eq!(tokens[32].node, Token::Lt);
    assert_eq!(tokens[33].node, Token::Ass);
    assert_eq!(tokens[34].node, Token::Ne);
    assert_eq!(tokens[35].node, Token::Not);
    assert_eq!(tokens[36].node, Token::Ass);
    assert_eq!(tokens[37].node, Token::End);
    assert_eq!(tokens[38].node, Token::EOF);
}

#[test]
fn lex_structure() {
    // a single trailing hash keeps editors from stripping the trailing whitespace
    // that this test is about
    let source = "
  #
 #
pass
if true # comment
  pass
else
  pass
   #
if true   #
  if doublenest
    pass
  normalexit
else
  if doublenest
    if triplenest
      pass
pass

# blank line with comment

# indented second comment

if true # should always evaluate
  pass

else
  # blank line with comment
  #
    pass

  #
  "
    .replace("#\n", "\n");
    let tokens = get_tokens(source.as_str());
    assert_eq!(tokens.len(), 64);
    assert_eq!(tokens[0].node, Token::Pass);
    assert_eq!(tokens[1].node, Token::End);
    assert_eq!(tokens[2].node, Token::If);
    assert_eq!(tokens[3].node, Token::Bool(true));
    assert_eq!(tokens[4].node, Token::Enter);
    assert_eq!(tokens[5].node, Token::Pass);
    assert_eq!(tokens[6].node, Token::End);
    assert_eq!(tokens[7].node, Token::Exit);
    assert_eq!(tokens[8].node, Token::End);
    assert_eq!(tokens[9].node, Token::Else);
    assert_eq!(tokens[10].node, Token::Enter);
    assert_eq!(tokens[11].node, Token::Pass);
    assert_eq!(tokens[12].node, Token::End);
    assert_eq!(tokens[13].node, Token::Exit);
    assert_eq!(tokens[14].node, Token::End);
    assert_eq!(tokens[15].node, Token::If);
    assert_eq!(tokens[16].node, Token::Bool(true));
    assert_eq!(tokens[17].node, Token::Enter);
    assert_eq!(tokens[18].node, Token::If);
    assert_eq!(tokens[19].node, Token::Name(String::from("doublenest")));
    assert_eq!(tokens[20].node, Token::Enter);
    assert_eq!(tokens[21].node, Token::Pass);
    assert_eq!(tokens[22].node, Token::End);
    assert_eq!(tokens[23].node, Token::Exit);
    assert_eq!(tokens[24].node, Token::End);
    assert_eq!(tokens[25].node, Token::Name(String::from("normalexit")));
    assert_eq!(tokens[26].node, Token::End);
    assert_eq!(tokens[27].node, Token::Exit);
    assert_eq!(tokens[28].node, Token::End);
    assert_eq!(tokens[29].node, Token::Else);
    assert_eq!(tokens[30].node, Token::Enter);
    assert_eq!(tokens[31].node, Token::If);
    assert_eq!(tokens[32].node, Token::Name(String::from("doublenest")));
    assert_eq!(tokens[33].node, Token::Enter);
    assert_eq!(tokens[34].node, Token::If);
    assert_eq!(tokens[35].node, Token::Name(String::from("triplenest")));
    assert_eq!(tokens[36].node, Token::Enter);
    assert_eq!(tokens[37].node, Token::Pass);
    assert_eq!(tokens[38].node, Token::End);
    assert_eq!(tokens[39].node, Token::Exit);
    assert_eq!(tokens[40].node, Token::End);
    assert_eq!(tokens[41].node, Token::Exit);
    assert_eq!(tokens[42].node, Token::End);
    assert_eq!(tokens[43].node, Token::Exit);
    assert_eq!(tokens[44].node, Token::End);
    assert_eq!(tokens[45].node, Token::Pass);
    assert_eq!(tokens[46].node, Token::End);
    assert_eq!(tokens[47].node, Token::If);
    assert_eq!(tokens[48].node, Token::Bool(true));
    assert_eq!(tokens[49].node, Token::Enter);
    assert_eq!(tokens[50].node, Token::Pass);
    assert_eq!(tokens[51].node, Token::End);
    assert_eq!(tokens[52].node, Token::Exit);
    assert_eq!(tokens[53].node, Token::End);
    assert_eq!(tokens[54].node, Token::Else);
    assert_eq!(tokens[55].node, Token::Enter);
    assert_eq!(tokens[56].node, Token::Enter);
    assert_eq!(tokens[57].node, Token::Pass);
    assert_eq!(tokens[58].node, Token::End);
    assert_eq!(tokens[59].node, Token::Exit);
    assert_eq!(tokens[60].node, Token::End);
    assert_eq!(tokens[61].node, Token::Exit);
    assert_eq!(tokens[62].node, Token::End);
    assert_eq!(tokens[63].node, Token::EOF);
}

#[test]
fn lex_trailing_exits() {
    let source = "if true
  pass";
    let tokens = get_tokens(source);
    assert_eq!(tokens.len(), 8);
    assert_eq!(tokens[0].node, Token::If);
    assert_eq!(tokens[1].node, Token::Bool(true));
    assert_eq!(tokens[2].node, Token::Enter);
    assert_eq!(tokens[3].node, Token::Pass);
    assert_eq!(tokens[4].node, Token::End);
    assert_eq!(tokens[5].node, Token::Exit);
    assert_eq!(tokens[6].node, Token::End);
    assert_eq!(tokens[7].node, Token::EOF);
}

#[test]
fn lex_empty_source_is_one_eof() {
    assert_eq!(nodes(""), vec![Token::EOF]);
    assert_eq!(nodes("\n\n\n"), vec![Token::EOF]);
    assert_eq!(nodes("# only a comment"), vec![Token::EOF]);
}

#[test]
fn lex_blank_lines_change_nothing() {
    let plain = "if a\n  b\n  c\nd\n";
    let spaced = "\n\nif a\n\n\n  b\n\n  c\n\n\n\nd\n\n\n";
    assert_eq!(nodes(plain), nodes(spaced));
}

#[test]
fn lex_every_enter_has_its_exit() {
    let tokens = nodes("if a\n  if b\n    c\n  d\nloop\n      e");
    let mut depth: i64 = 0;
    for (i, t) in tokens.iter().enumerate() {
        match t {
            Token::Enter => depth += 1,
            Token::Exit => {
                depth -= 1;
                assert!(depth >= 0);
                assert_eq!(tokens[i + 1], Token::End);
            }
            Token::End => assert_ne!(tokens[i + 1], Token::End),
            Token::EOF => assert_eq!(i, tokens.len() - 1),
            _ => {}
        }
    }
    assert_eq!(depth, 0);
    assert_eq!(tokens[tokens.len() - 1], Token::EOF);
}

#[test]
fn lex_spans_are_byte_offsets() {
    let tokens = get_tokens("ab = '\u{fc}'\nx");
    assert_eq!(tokens[0].node, Token::Name(String::from("ab")));
    assert_eq!(tokens[0].span, Span { low: 0, high: 2 });
    assert_eq!(tokens[1].span, Span { low: 3, high: 4 });
    assert_eq!(tokens[2].node, Token::Str(String::from("\u{fc}")));
    assert_eq!(tokens[2].span, Span { low: 5, high: 9 });
    assert_eq!(tokens[3].node, Token::End);
    assert_eq!(tokens[3].span, Span { low: 9, high: 10 });
    assert_eq!(tokens[4].span, Span { low: 10, high: 11 });
    assert_eq!(tokens[5].node, Token::End);
    assert_eq!(tokens[5].span, Span { low: 11, high: 11 });
    assert_eq!(tokens[6].node, Token::EOF);
    assert_eq!(tokens[6].span, Span { low: 11, high: 11 });
}

#[test]
fn lex_float_literals_in_order() {
    let texts = float_literals("a = 1.5 + 2 * 0.25 # 7.5\n'3.5' 4.");
    assert_eq!(texts, vec![String::from("1.5"), String::from("0.25"), String::from("4.")]);
}

#[test]
fn lex_refuses_what_it_cannot_read() {
    assert!(try_lex("9223372036854775807", &Vec::new()).is_some());
    assert!(try_lex("9223372036854775808", &Vec::new()).is_none());
    assert!(try_lex("1.5", &Vec::new()).is_none());
    let floats = vec![float(1.5)];
    let tokens = lex("1.5", &floats);
    assert_eq!(tokens[0].node, Token::Float(float(1.5)));
}

#[test]
fn lex_escapes_and_unclosed_strings() {
    assert_eq!(
        nodes("'a\\'b\\rc\\qd'"),
        vec![Token::Str(String::from("a'b\rcqd")), Token::End, Token::EOF]
    );
    assert_eq!(
        nodes("'open\\"),
        vec![Token::UnclosedStr(String::from("open")), Token::End, Token::EOF]
    );
}

#[test]
fn lex_tab_is_a_token() {
    assert_eq!(nodes("\tx"), vec![Token::Tab, Token::Name(String::from("x")), Token::End, Token::EOF]);
}

#[test]
fn float_order_follows_the_numbers() {
    let xs = [
        f64::NEG_INFINITY,
        -2.5,
        -0.0,
        0.0,
        1.0e-300,
        1.0,
        3.5,
        f64::INFINITY,
        f64::NAN,
    ];
    for &a in xs.iter() {
        for &b in xs.iter() {
            let less = if a.is_nan() { false } else if b.is_nan() { true } else { a < b };
            let same = if a.is_nan() || b.is_nan() { a.is_nan() && b.is_nan() } else { a == b };
            assert_eq!(float(a).num_lt(&float(b)), less, "{} < {}", a, b);
            assert_eq!(float(a).num_eq(&float(b)), same, "{} == {}", a, b);
        }
        if !a.is_nan() {
            assert_eq!(float(a).neg().bits, (-a).to_bits());
        }
    }
    assert_eq!(Float::from_bits(0x7ff8_0000_0000_1234).bits, 0x7ff8_0000_0000_0000);
    assert!(float(f64::NAN).is_nan());
    assert!(!float(1.0).is_nan());
}
