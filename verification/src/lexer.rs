use vstd::prelude::*;
use crate::ast::string_views;
use crate::float::Float;
use crate::lexer::grammar::CharClass;
use crate::lexer::grammar::Layout;
use crate::lexer::grammar::Piece;
use crate::lexer::grammar::at_span;
use crate::lexer::grammar::byte_len;
use crate::lexer::grammar::closing;
use crate::lexer::grammar::decimal;
use crate::lexer::grammar::float_texts;
use crate::lexer::grammar::floats_after;
use crate::lexer::grammar::int_value;
use crate::lexer::grammar::ints_fit;
use crate::lexer::grammar::is_digit;
use crate::lexer::grammar::keyword;
use crate::lexer::grammar::lemma_run_len_bound;
use crate::lexer::grammar::lemma_step_progress;
use crate::lexer::grammar::lex_step;
use crate::lexer::grammar::lex_tokens;
use crate::lexer::grammar::next_layout;
use crate::lexer::grammar::pair_of;
use crate::lexer::grammar::piece_fits;
use crate::lexer::grammar::piece_texts;
use crate::lexer::grammar::piece_tokens;
use crate::lexer::grammar::readable;
use crate::lexer::grammar::run_len;
use crate::lexer::grammar::scan_str;
use crate::lexer::grammar::source_floats;
use crate::lexer::grammar::source_tokens;
use crate::lexer::grammar::start_layout;
use crate::lexer::grammar::symbol;
use crate::lexer::grammar::unescape;
use crate::lexer::text::digit;
use crate::lexer::text::has_dot;
use crate::lexer::text::lemma_byte_len_split;
use crate::lexer::text::parse_int;
use crate::lexer::text::scan_run;
use crate::lexer::text::slice_string;
use crate::lexer::text::source_chars;
use crate::lexer::text::spells;
use crate::lexer::text::starts_name;
use crate::span::Span;
use crate::span::Spanned;
use crate::span::SpannedView;
use crate::span::spanned_views;
pub use crate::token::Token;
pub use crate::token::TokenView;

pub mod blank;
pub mod grammar;
pub mod laws;
pub mod lines;
pub mod local;
pub mod reach;
pub mod text;

verus! {

/// The token for the name written from `start` to `end`.
fn name_token(chars: &Vec<char>, start: usize, end: usize) -> (t: Token)
    requires
        start <= end <= chars.len(),
    ensures
        t@ == keyword(chars@.subrange(start as int, end as int)),
{
    if spells(chars, start, end, "true") {
        Token::Bool(true)
    } else if spells(chars, start, end, "false") {
        Token::Bool(false)
    } else if spells(chars, start, end, "null") {
        Token::Null
    } else if spells(chars, start, end, "table") {
        Token::Table
    } else if spells(chars, start, end, "and") {
        Token::And
    } else if spells(chars, start, end, "break") {
        Token::Break
    } else if spells(chars, start, end, "catch") {
        Token::Catch
    } else if spells(chars, start, end, "continue") {
        Token::Continue
    } else if spells(chars, start, end, "else") {
        Token::Else
    } else if spells(chars, start, end, "fn") {
        Token::Func
    } else if spells(chars, start, end, "for") {
        Token::For
    } else if spells(chars, start, end, "if") {
        Token::If
    } else if spells(chars, start, end, "in") {
        Token::In
    } else if spells(chars, start, end, "local") {
        Token::Local
    } else if spells(chars, start, end, "loop") {
        Token::Loop
    } else if spells(chars, start, end, "or") {
        Token::Or
    } else if spells(chars, start, end, "pass") {
        Token::Pass
    } else if spells(chars, start, end, "return") {
        Token::Return
    } else if spells(chars, start, end, "save") {
        Token::Save
    } else if spells(chars, start, end, "var") {
        Token::Var
    } else if spells(chars, start, end, "while") {
        Token::While
    } else {
        Token::Name(slice_string(chars, start, end))
    }
}

/// The token of a one-character symbol.
fn symbol_token(c: char) -> (r: Option<Token>)
    ensures
        match r {
            Some(t) => symbol(c) == Some(t@),
            None => symbol(c) is None,
        },
{
    if c == ',' {
        Some(Token::Com)
    } else if c == '.' {
        Some(Token::Dot)
    } else if c == ';' {
        Some(Token::Sem)
    } else if c == '(' {
        Some(Token::Pal)
    } else if c == ')' {
        Some(Token::Par)
    } else if c == '[' {
        Some(Token::Sql)
    } else if c == ']' {
        Some(Token::Sqr)
    } else if c == '{' {
        Some(Token::Cul)
    } else if c == '}' {
        Some(Token::Cur)
    } else if c == '+' {
        Some(Token::Add)
    } else if c == '&' {
        Some(Token::Amp)
    } else if c == '@' {
        Some(Token::At)
    } else if c == '^' {
        Some(Token::Car)
    } else if c == '/' {
        Some(Token::Div)
    } else if c == '$' {
        Some(Token::Dol)
    } else if c == '*' {
        Some(Token::Mul)
    } else if c == '~' {
        Some(Token::Neg)
    } else if c == '|' {
        Some(Token::Pipe)
    } else if c == '%' {
        Some(Token::Pct)
    } else if c == '\t' {
        Some(Token::Tab)
    } else {
        None
    }
}

/// The second character and the two tokens of a symbol that may have two characters.
fn pair_tokens(c: char) -> (r: Option<(char, Token, Token)>)
    ensures
        match r {
            Some(p) => pair_of(c) is Some && pair_of(c)->Some_0.next == p.0 && pair_of(
                c,
            )->Some_0.solo == p.1@ && pair_of(c)->Some_0.pair == p.2@,
            None => pair_of(c) is None,
        },
{
    if c == '-' {
        Some(('>', Token::Sub, Token::Arr))
    } else if c == '<' {
        Some(('=', Token::Lt, Token::Le))
    } else if c == '>' {
        Some(('=', Token::Gt, Token::Ge))
    } else if c == '=' {
        Some(('=', Token::Ass, Token::Eql))
    } else if c == '!' {
        Some(('=', Token::Not, Token::Ne))
    } else if c == ':' {
        Some((':', Token::Col, Token::Sup))
    } else {
        None
    }
}

/// What the lexer found at one place.
pub enum Found {
    Nothing,
    End,
    Token(Token),
    /// An integer literal: its value, and whether the value fits.
    Int(i64, bool),
    /// A float literal, by its text.
    Float(String),
}

impl Found {
    /// Whether this is what the piece says.
    pub open spec fn is(&self, piece: Piece) -> bool {
        match (*self, piece) {
            (Found::Nothing, Piece::Nothing) => true,
            (Found::End, Piece::End) => true,
            (Found::Token(t), Piece::Token(v)) => t@ == v,
            (Found::Int(value, fits), Piece::IntText(text)) => fits == (decimal(text) <= i64::MAX)
                && value == int_value(text),
            (Found::Float(s), Piece::FloatText(text)) => s@ == text,
            _ => false,
        }
    }
}

/// Reads a number that starts at `pos`.
fn lex_number(chars: &Vec<char>, pos: usize) -> (r: (Found, usize))
    requires
        pos < chars.len(),
        is_digit(chars@[pos as int]),
    ensures
        pos < r.1 <= chars.len(),
        r.1 - pos == lex_step(chars@.skip(pos as int), start_layout()).len,
        r.0.is(lex_step(chars@.skip(pos as int), start_layout()).piece),
{
    let ghost rest = chars@.skip(pos as int);
    let end = scan_run(chars, pos + 1, CharClass::Number);
    proof {
        assert(rest.skip(1) =~= chars@.skip(pos + 1));
        assert(rest.take(end - pos) =~= chars@.subrange(pos as int, end as int));
    }
    if has_dot(chars, pos, end) {
        (Found::Float(slice_string(chars, pos, end)), end)
    } else {
        proof {
            let text = chars@.subrange(pos as int, end as int);
            lemma_digits(chars@, pos as int, end as int);
        }
        let (value, fits) = parse_int(chars, pos, end);
        (Found::Int(value, fits), end)
    }
}

/// A run of number characters without a dot is made of digits.
proof fn lemma_digits(s: Seq<char>, start: int, end: int)
    requires
        0 <= start < end <= s.len(),
        is_digit(s[start]),
        end - start - 1 == run_len(s.skip(start + 1), CharClass::Number),
        !s.subrange(start, end).contains('.'),
    ensures
        forall|k: int| start <= k < end ==> is_digit(s[k]),
{
    let text = s.subrange(start, end);
    lemma_run_chars(s.skip(start + 1), CharClass::Number);
    assert forall|k: int| start <= k < end implies is_digit(s[k]) by {
        assert(text[k - start] == s[k]);
        assert(text[k - start] != '.');
        if k > start {
            assert(s.skip(start + 1)[k - start - 1] == s[k]);
        }
    }
}

/// Every character of a run is of the run's class.
proof fn lemma_run_chars(s: Seq<char>, class: CharClass)
    ensures
        forall|k: int| 0 <= k < run_len(s, class) ==> crate::lexer::grammar::in_class(class, s[k]),
    decreases s.len(),
{
    lemma_run_len_bound(s, class);
    if s.len() > 0 && crate::lexer::grammar::in_class(class, s[0]) {
        lemma_run_chars(s.skip(1), class);
        assert forall|k: int| 0 <= k < run_len(s, class) implies crate::lexer::grammar::in_class(
            class,
            s[k],
        ) by {
            if k > 0 {
                assert(s.skip(1)[k - 1] == s[k]);
            }
        }
    }
}

/// Reads a name or keyword that starts at `pos`.
fn lex_name(chars: &Vec<char>, pos: usize) -> (r: (Token, usize))
    requires
        pos < chars.len(),
    ensures
        pos < r.1 <= chars.len(),
        r.1 - pos == 1 + run_len(chars@.skip(pos as int).skip(1), CharClass::Name),
        r.0@ == keyword(chars@.skip(pos as int).take(r.1 - pos)),
{
    let ghost rest = chars@.skip(pos as int);
    let end = scan_run(chars, pos + 1, CharClass::Name);
    proof {
        assert(rest.skip(1) =~= chars@.skip(pos + 1));
        assert(rest.take(end - pos) =~= chars@.subrange(pos as int, end as int));
    }
    (name_token(chars, pos, end), end)
}

/// Reads a comment that starts at `pos`: everything up to the end of the line.
fn lex_comment(chars: &Vec<char>, pos: usize) -> (end: usize)
    requires
        pos < chars.len(),
    ensures
        pos < end <= chars.len(),
        end - pos == 1 + run_len(chars@.skip(pos as int).skip(1), CharClass::Comment),
{
    let end = scan_run(chars, pos + 1, CharClass::Comment);
    proof {
        assert(chars@.skip(pos as int).skip(1) =~= chars@.skip(pos + 1));
    }
    end
}

/// Reads a line break at `pos` and the spaces after it, and counts the spaces.
fn lex_indent(chars: &Vec<char>, pos: usize) -> (r: (u64, usize))
    requires
        pos < chars.len(),
    ensures
        pos < r.1 <= chars.len(),
        r.1 - pos == 1 + run_len(chars@.skip(pos as int).skip(1), CharClass::Indent),
        r.0 == r.1 - pos - 1,
{
    let end = scan_run(chars, pos + 1, CharClass::Indent);
    proof {
        assert(chars@.skip(pos as int).skip(1) =~= chars@.skip(pos + 1));
    }
    ((end - pos - 1) as u64, end)
}

/// Reads a symbol at `pos` that becomes another if `next` follows it.
fn lex_pair(next: char, solo: Token, pair: Token, chars: &Vec<char>, pos: usize) -> (r: (
    Token,
    usize,
))
    requires
        pos < chars.len(),
    ensures
        r.1 == (if pos + 1 < chars.len() && chars@[pos + 1] == next {
            pos + 2
        } else {
            pos + 1
        }),
        r.0 == (if pos + 1 < chars.len() && chars@[pos + 1] == next {
            pair
        } else {
            solo
        }),
{
    if pos + 1 < chars.len() && chars[pos + 1] == next {
        (pair, pos + 2)
    } else {
        (solo, pos + 1)
    }
}

/// Reads a string literal whose opening quote is at `pos`.
fn lex_string(chars: &Vec<char>, pos: usize) -> (r: (Token, usize))
    requires
        pos < chars.len(),
    ensures
        pos < r.1 <= chars.len(),
        r.1 - pos == 1 + scan_str(chars@.skip(pos as int).skip(1), false).len,
        r.0@ == (if scan_str(chars@.skip(pos as int).skip(1), false).closed {
            TokenView::Str(scan_str(chars@.skip(pos as int).skip(1), false).text)
        } else {
            TokenView::UnclosedStr(scan_str(chars@.skip(pos as int).skip(1), false).text)
        }),
{
    let ghost inside = chars@.skip(pos + 1);
    let ghost whole = scan_str(inside, false);
    let mut contents = String::new();
    let mut escaped = false;
    let mut i: usize = pos + 1;
    proof {
        assert(chars@.skip(pos as int).skip(1) =~= inside);
        assert(inside.skip(0) =~= inside);
        assert(contents@ + whole.text =~= whole.text);
    }
    while i < chars.len()
        invariant
            pos < i <= chars.len(),
            inside == chars@.skip(pos as int).skip(1),
            whole == scan_str(inside, false),
            whole.text == contents@ + scan_str(chars@.skip(i as int), escaped).text,
            whole.len == (i - pos - 1) + scan_str(chars@.skip(i as int), escaped).len,
            whole.closed == scan_str(chars@.skip(i as int), escaped).closed,
        decreases chars.len() - i,
    {
        let c = chars[i];
        let ghost here = chars@.skip(i as int);
        let ghost before = contents@;
        proof {
            assert(here.skip(1) =~= chars@.skip(i + 1));
            assert(here[0] == c);
        }
        if escaped {
            let plain = if c == 'n' {
                '\n'
            } else if c == 'r' {
                '\r'
            } else if c == 't' {
                '\t'
            } else {
                c
            };
            contents.push(plain);
            escaped = false;
            proof {
                let rest = scan_str(here.skip(1), false);
                assert(before + (seq![unescape(c)] + rest.text) =~= before.push(plain) + rest.text);
            }
        } else if c == '\'' {
            proof {
                assert(before + Seq::<char>::empty() =~= before);
            }
            return (Token::Str(contents), i + 1);
        } else if c == '\\' {
            escaped = true;
        } else {
            contents.push(c);
            proof {
                let rest = scan_str(here.skip(1), false);
                assert(before + (seq![c] + rest.text) =~= before.push(c) + rest.text);
            }
        }
        i = i + 1;
    }
    proof {
        assert(contents@ + Seq::<char>::empty() =~= contents@);
    }
    (Token::UnclosedStr(contents), i)
}


/// What one look at the text found, and what it does to the block structure.
struct Scan {
    found: Found,
    /// Where the next look starts.
    end: usize,
    /// The indentation of the current line afterwards.
    current: u64,
    /// Whether that indentation opens a block.
    enter: bool,
}

/// Looks at the text at `pos`, where no block is waiting to be closed.
fn scan(chars: &Vec<char>, pos: usize, top: u64, current: u64, Ghost(layout): Ghost<Layout>) -> (r:
    Scan)
    requires
        pos < chars.len(),
        layout.indents.len() > 0,
        layout.indents.last() == top,
        layout.current == current,
        current >= top,
    ensures
        pos < r.end <= chars.len(),
        r.end - pos == lex_step(chars@.skip(pos as int), layout).len,
        r.found.is(lex_step(chars@.skip(pos as int), layout).piece),
        r.current == lex_step(chars@.skip(pos as int), layout).current,
        lex_step(chars@.skip(pos as int), layout).indents == (if r.enter {
            layout.indents.push(r.current)
        } else {
            layout.indents
        }),
{
    let ghost rest = chars@.skip(pos as int);
    let c = chars[pos];
    assert(rest[0] == c);
    if c == '#' {
        let end = lex_comment(chars, pos);
        Scan { found: Found::Nothing, end, current, enter: false }
    } else if starts_name(c) {
        let (token, end) = lex_name(chars, pos);
        Scan { found: Found::Token(token), end, current, enter: false }
    } else if digit(c) {
        let (found, end) = lex_number(chars, pos);
        Scan { found, end, current, enter: false }
    } else if c == '\n' {
        let (indent, end) = lex_indent(chars, pos);
        if end < chars.len() {
            assert(rest[end - pos] == chars@[end as int]);
            if chars[end] == '\n' {
                Scan { found: Found::Nothing, end, current, enter: false }
            } else if indent > top {
                Scan { found: Found::Token(Token::Enter), end, current: indent, enter: true }
            } else {
                Scan { found: Found::End, end, current: indent, enter: false }
            }
        } else {
            Scan { found: Found::End, end, current, enter: false }
        }
    } else if c == '\'' {
        let (token, end) = lex_string(chars, pos);
        Scan { found: Found::Token(token), end, current, enter: false }
    } else {
        match pair_tokens(c) {
            Some((next, solo, pair)) => {
                proof {
                    if pos + 1 < chars.len() {
                        assert(rest[1] == chars@[pos + 1]);
                    }
                }
                let (token, end) = lex_pair(next, solo, pair, chars, pos);
                Scan { found: Found::Token(token), end, current, enter: false }
            },
            None => match symbol_token(c) {
                Some(token) => Scan { found: Found::Token(token), end: pos + 1, current, enter: false },
                None => Scan { found: Found::Nothing, end: pos + 1, current, enter: false },
            },
        }
    }
}

/// Appends a token with its span.
fn push_token(tokens: &mut Vec<Spanned>, node: Token, span: Span)
    ensures
        spanned_views(final(tokens)@) == spanned_views(old(tokens)@).push(
            SpannedView { node: node@, span },
        ),
{
    tokens.push(Spanned { node, span });
    assert(spanned_views(tokens@) =~= spanned_views(old(tokens)@).push(
        SpannedView { node: node@, span },
    ));
}

/// The state of a lexer between two steps.
struct Lexer {
    /// Index of the next character.
    pos: usize,
    /// Number of float values used.
    used: usize,
    /// Indentation of each open block.
    stack: Vec<u64>,
    /// Indentation of the current line.
    current: u64,
    /// Whether the end of a statement may be emitted.
    end_ok: bool,
    tokens: Vec<Spanned>,
    /// The float literals read.
    texts: Vec<String>,
    /// Whether every integer literal read fits.
    fits: bool,
}

impl Lexer {
    spec fn layout(&self) -> Layout {
        Layout { indents: self.stack@, current: self.current, end_ok: self.end_ok }
    }

    spec fn wf(&self, chars: Seq<char>, floats: Seq<Float>) -> bool {
        &&& self.pos <= chars.len()
        &&& self.used <= floats.len()
        &&& self.stack@.len() > 0
        &&& self.stack@[0] == 0
    }

    /// One step: closes a block that the current line has left, or reads what is next.
    fn step(&mut self, chars: &Vec<char>, offsets: &Vec<u64>, floats: &Vec<Float>)
        requires
            old(self).wf(chars@, floats@),
            old(self).pos < chars.len(),
            offsets@.len() == chars@.len() + 1,
            forall|i: int| 0 <= i <= chars@.len() ==> offsets@[i] == byte_len(chars@.take(i)),
        ensures
            final(self).wf(chars@, floats@),
            ({
                let rest = chars@.skip(old(self).pos as int);
                let layout = old(self).layout();
                let left = floats@.skip(old(self).used as int);
                let st = lex_step(rest, layout);
                let next = offsets@[old(self).pos as int] + byte_len(rest.take(st.len as int));
                &&& final(self).pos == old(self).pos + st.len
                &&& offsets@[final(self).pos as int] == next
                &&& final(self).layout() == next_layout(st, layout)
                &&& floats@.skip(final(self).used as int) == floats_after(st.piece, left)
                &&& spanned_views(final(self).tokens@) == spanned_views(old(self).tokens@)
                    + at_span(
                    piece_tokens(st.piece, layout.end_ok, left),
                    Span { low: offsets@[old(self).pos as int], high: next as u64 },
                )
                &&& string_views(final(self).texts@) == string_views(old(self).texts@)
                    + piece_texts(st.piece)
                &&& final(self).fits == (old(self).fits && piece_fits(st.piece))
            }),
    {
        let ghost rest = chars@.skip(self.pos as int);
        let ghost layout = self.layout();
        let ghost left = floats@.skip(self.used as int);
        let ghost st = lex_step(rest, layout);
        let ghost before = spanned_views(self.tokens@);
        let ghost texts = string_views(self.texts@);
        let start = self.pos;
        let low = offsets[start];
        let top = self.stack[self.stack.len() - 1];
        if self.current < top {
            let span = Span { low, high: low };
            self.stack.pop();
            push_token(&mut self.tokens, Token::Exit, span);
            push_token(&mut self.tokens, Token::End, span);
            self.end_ok = false;
            proof {
                assert(rest.take(0) =~= Seq::<char>::empty());
                assert(self.stack@ =~= layout.indents.drop_last());
                assert(spanned_views(self.tokens@) =~= before + at_span(
                    piece_tokens(st.piece, layout.end_ok, left),
                    span,
                ));
                assert(texts + piece_texts(st.piece) =~= texts);
            }
            return ;
        }
        let found = scan(chars, start, top, self.current, Ghost(layout));
        let end = found.end;
        let span = Span { low, high: offsets[end] };
        proof {
            lemma_byte_len_split(chars@, start as int, end as int);
            assert(texts + Seq::<Seq<char>>::empty() =~= texts);
            assert(before + Seq::<SpannedView>::empty() =~= before);
        }
        self.pos = end;
        self.current = found.current;
        if found.enter {
            self.stack.push(found.current);
        }
        match found.found {
            Found::Nothing => {},
            Found::End => {
                if self.end_ok {
                    push_token(&mut self.tokens, Token::End, span);
                }
                self.end_ok = false;
            },
            Found::Token(token) => {
                push_token(&mut self.tokens, token, span);
                self.end_ok = true;
            },
            Found::Int(value, fits) => {
                push_token(&mut self.tokens, Token::Int(value), span);
                self.end_ok = true;
                if !fits {
                    self.fits = false;
                }
            },
            Found::Float(text) => {
                let value = if self.used < floats.len() {
                    let v = floats[self.used];
                    proof {
                        assert(left[0] == v);
                        assert(left.skip(1) =~= floats@.skip(self.used + 1));
                    }
                    self.used = self.used + 1;
                    v
                } else {
                    Float { bits: 0 }
                };
                push_token(&mut self.tokens, Token::Float(value), span);
                self.end_ok = true;
                let ghost pushed = text@;
                self.texts.push(text);
                proof {
                    assert(string_views(self.texts@) =~= texts + seq![pushed]);
                }
            },
        }
        proof {
            assert(spanned_views(self.tokens@) =~= before + at_span(
                piece_tokens(st.piece, layout.end_ok, left),
                span,
            ));
        }
    }
}


/// Emits the tokens that close the output.
fn finish(tokens: &mut Vec<Spanned>, stack: &mut Vec<u64>, current: u64, end_ok: bool, at: u64)
    requires
        old(stack)@.len() > 0,
    ensures
        spanned_views(final(tokens)@) == spanned_views(old(tokens)@) + at_span(
            closing(Layout { indents: old(stack)@, current, end_ok }),
            Span { low: at, high: at },
        ),
{
    let span = Span { low: at, high: at };
    let ghost before = spanned_views(tokens@);
    let ghost whole = closing(Layout { indents: stack@, current, end_ok });
    let ghost mut done: Seq<TokenView> = seq![];
    if end_ok {
        push_token(tokens, Token::End, span);
        proof {
            done = seq![TokenView::End];
        }
    }
    proof {
        assert(spanned_views(tokens@) =~= before + at_span(done, span));
        assert(done =~= piece_tokens(Piece::End, end_ok, seq![]));
        assert(piece_tokens(Piece::End, false, seq![]) + closing(
            Layout { indents: stack@, current, end_ok: false },
        ) =~= closing(Layout { indents: stack@, current, end_ok: false }));
    }
    while stack.len() > 1
        invariant
            stack@.len() > 0,
            spanned_views(tokens@) == before + at_span(done, span),
            whole == done + closing(Layout { indents: stack@, current, end_ok: false }),
        decreases stack.len(),
    {
        let ghost indents = stack@;
        let ghost so_far = done;
        push_token(tokens, Token::Exit, span);
        push_token(tokens, Token::End, span);
        stack.pop();
        proof {
            let link = seq![TokenView::Exit, TokenView::End];
            let rest = closing(Layout { indents: stack@, current, end_ok: false });
            assert(stack@ =~= indents.drop_last());
            done = so_far + link;
            assert(so_far + (piece_tokens(Piece::End, false, seq![]) + link + rest) =~= done
                + rest);
            assert(spanned_views(tokens@) =~= before + at_span(done, span));
        }
    }
    push_token(tokens, Token::EOF, span);
    proof {
        assert(whole =~= done + seq![TokenView::EOF]);
        assert(spanned_views(tokens@) =~= before + at_span(whole, span));
    }
}

/// Reads a whole source text: its tokens, the texts of its float literals, and whether
/// every integer literal fits.
fn lex_core(source: &str, floats: &Vec<Float>) -> (r: (Vec<Spanned>, Vec<String>, bool))
    ensures
        spanned_views(r.0@) == source_tokens(source@, floats@),
        string_views(r.1@) == source_floats(source@),
        r.2 == ints_fit(source@, start_layout()),
{
    let (chars, offsets) = source_chars(source);
    let mut stack: Vec<u64> = Vec::new();
    stack.push(0);
    let mut lexer = Lexer {
        pos: 0,
        used: 0,
        stack,
        current: 0,
        end_ok: false,
        tokens: Vec::new(),
        texts: Vec::new(),
        fits: true,
    };
    proof {
        assert(chars@.skip(0) =~= chars@);
        assert(floats@.skip(0) =~= floats@);
        assert(chars@.take(0) =~= Seq::<char>::empty());
        assert(lexer.layout() == start_layout());
        assert(spanned_views(lexer.tokens@) + source_tokens(chars@, floats@) =~= source_tokens(
            chars@,
            floats@,
        ));
        assert(string_views(lexer.texts@) + source_floats(chars@) =~= source_floats(chars@));
    }
    while lexer.pos < chars.len()
        invariant
            lexer.wf(chars@, floats@),
            offsets@.len() == chars@.len() + 1,
            forall|i: int| 0 <= i <= chars@.len() ==> offsets@[i] == byte_len(chars@.take(i)),
            source_tokens(chars@, floats@) == spanned_views(lexer.tokens@) + lex_tokens(
                chars@.skip(lexer.pos as int),
                offsets@[lexer.pos as int] as nat,
                lexer.layout(),
                floats@.skip(lexer.used as int),
            ),
            source_floats(chars@) == string_views(lexer.texts@) + float_texts(
                chars@.skip(lexer.pos as int),
                lexer.layout(),
            ),
            ints_fit(chars@, start_layout()) == (lexer.fits && ints_fit(
                chars@.skip(lexer.pos as int),
                lexer.layout(),
            )),
        decreases chars.len() - lexer.pos, lexer.stack.len(),
    {
        let ghost rest = chars@.skip(lexer.pos as int);
        let ghost layout = lexer.layout();
        let ghost left = floats@.skip(lexer.used as int);
        let ghost st = lex_step(rest, layout);
        let ghost base = offsets@[lexer.pos as int] as nat;
        let ghost tokens = spanned_views(lexer.tokens@);
        let ghost texts = string_views(lexer.texts@);
        proof {
            lemma_step_progress(rest, layout);
        }
        lexer.step(&chars, &offsets, floats);
        proof {
            let next = base + byte_len(rest.take(st.len as int));
            assert(rest.skip(st.len as int) =~= chars@.skip(lexer.pos as int));
            let emitted = at_span(
                piece_tokens(st.piece, layout.end_ok, left),
                Span { low: base as u64, high: next as u64 },
            );
            let tail = lex_tokens(
                chars@.skip(lexer.pos as int),
                next,
                next_layout(st, layout),
                floats_after(st.piece, left),
            );
            assert(lex_tokens(rest, base, layout, left) == emitted + tail);
            assert(tokens + (emitted + tail) =~= (tokens + emitted) + tail);
            let more = float_texts(chars@.skip(lexer.pos as int), next_layout(st, layout));
            assert(texts + (piece_texts(st.piece) + more) =~= (texts + piece_texts(st.piece))
                + more);
        }
    }
    let at = offsets[chars.len()];
    let ghost before = spanned_views(lexer.tokens@);
    let ghost layout = lexer.layout();
    proof {
        assert(chars@.skip(lexer.pos as int).len() == 0);
        assert(string_views(lexer.texts@) + Seq::<Seq<char>>::empty() =~= string_views(
            lexer.texts@,
        ));
    }
    let mut tokens = lexer.tokens;
    let mut stack = lexer.stack;
    finish(&mut tokens, &mut stack, lexer.current, lexer.end_ok, at);
    (tokens, lexer.texts, lexer.fits)
}

/// The texts of the float literals of a source text, in the order in which they stand.
///
/// A float literal is a run of digits and dots that starts with a digit and holds a dot.
pub fn float_literals(source: &str) -> (texts: Vec<String>)
    ensures
        string_views(texts@) == source_floats(source@),
{
    let floats: Vec<Float> = Vec::new();
    let (_, texts, _) = lex_core(source, &floats);
    texts
}

/// The tokens of a source text, or `None` if it cannot be read: if an integer literal
/// does not fit in 64 bits with a sign, or `floats` holds fewer values than the text
/// has float literals. The float literals take their values from `floats` in order.
pub fn try_lex(source: &str, floats: &Vec<Float>) -> (r: Option<Vec<Spanned>>)
    ensures
        match r {
            Some(tokens) => readable(source@, floats@) && spanned_views(tokens@) == source_tokens(
                source@,
                floats@,
            ),
            None => !readable(source@, floats@),
        },
{
    let (tokens, texts, fits) = lex_core(source, floats);
    assert(string_views(texts@).len() == texts@.len());
    if fits && texts.len() <= floats.len() {
        Some(tokens)
    } else {
        None
    }
}

/// The tokens of a source text; the float literals take their values from `floats`
/// in order.
pub fn lex(source: &str, floats: &Vec<Float>) -> (tokens: Vec<Spanned>)
    requires
        readable(source@, floats@),
    ensures
        spanned_views(tokens@) == source_tokens(source@, floats@),
{
    let (tokens, _, _) = lex_core(source, floats);
    tokens
}

} // verus!
