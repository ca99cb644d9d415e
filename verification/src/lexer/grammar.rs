use vstd::prelude::*;
use crate::float::Float;
use crate::span::Span;
use crate::span::SpannedView;
use crate::token::TokenView;

verus! {

/// A decimal digit.
pub open spec fn is_digit(c: char) -> bool {
    '0' <= c <= '9'
}

/// A character of a number: a digit or a dot.
pub open spec fn is_number_char(c: char) -> bool {
    is_digit(c) || c == '.'
}

/// A character that can start a name.
pub open spec fn is_name_start(c: char) -> bool {
    'a' <= c <= 'z' || 'A' <= c <= 'Z' || c == '_'
}

/// A character that can continue a name.
pub open spec fn is_name_char(c: char) -> bool {
    is_name_start(c) || is_digit(c)
}

/// A class of characters that a token is a run of.
#[derive(Clone, Copy, PartialEq, Eq, Structural)]
pub enum CharClass {
    /// Digits and dots.
    Number,
    /// Letters, digits and underscores.
    Name,
    /// Everything up to the end of the line.
    Comment,
    /// Spaces.
    Indent,
}

/// Whether a character belongs to a class.
pub open spec fn in_class(class: CharClass, c: char) -> bool {
    match class {
        CharClass::Number => is_number_char(c),
        CharClass::Name => is_name_char(c),
        CharClass::Comment => c != '\n',
        CharClass::Indent => c == ' ',
    }
}

/// Length of the longest prefix of `s` made of characters of `class`.
pub open spec fn run_len(s: Seq<char>, class: CharClass) -> nat
    decreases s.len(),
{
    if s.len() > 0 && in_class(class, s[0]) {
        1 + run_len(s.skip(1), class)
    } else {
        0
    }
}

/// Number of bytes of a character in UTF-8.
pub open spec fn utf8_len(c: char) -> nat {
    if (c as u32) < 0x80 {
        1
    } else if (c as u32) < 0x800 {
        2
    } else if (c as u32) < 0x10000 {
        3
    } else {
        4
    }
}

/// Number of bytes of a text in UTF-8.
pub open spec fn byte_len(s: Seq<char>) -> nat
    decreases s.len(),
{
    if s.len() == 0 {
        0
    } else {
        byte_len(s.drop_last()) + utf8_len(s.last())
    }
}

/// The value of a decimal digit.
pub open spec fn digit_value(c: char) -> nat {
    (c as u32 - '0' as u32) as nat
}

/// The number that a text of digits writes in base ten.
pub open spec fn decimal(s: Seq<char>) -> nat
    decreases s.len(),
{
    if s.len() == 0 {
        0
    } else {
        decimal(s.drop_last()) * 10 + digit_value(s.last())
    }
}

/// The token for a name: a literal or keyword if the name is one, else the name itself.
pub open spec fn keyword(name: Seq<char>) -> TokenView {
    if name == "true"@ {
        TokenView::Bool(true)
    } else if name == "false"@ {
        TokenView::Bool(false)
    } else if name == "null"@ {
        TokenView::Null
    } else if name == "table"@ {
        TokenView::Table
    } else if name == "and"@ {
        TokenView::And
    } else if name == "break"@ {
        TokenView::Break
    } else if name == "catch"@ {
        TokenView::Catch
    } else if name == "continue"@ {
        TokenView::Continue
    } else if name == "else"@ {
        TokenView::Else
    } else if name == "fn"@ {
        TokenView::Func
    } else if name == "for"@ {
        TokenView::For
    } else if name == "if"@ {
        TokenView::If
    } else if name == "in"@ {
        TokenView::In
    } else if name == "local"@ {
        TokenView::Local
    } else if name == "loop"@ {
        TokenView::Loop
    } else if name == "or"@ {
        TokenView::Or
    } else if name == "pass"@ {
        TokenView::Pass
    } else if name == "return"@ {
        TokenView::Return
    } else if name == "save"@ {
        TokenView::Save
    } else if name == "var"@ {
        TokenView::Var
    } else if name == "while"@ {
        TokenView::While
    } else {
        TokenView::Name(name)
    }
}

/// The character that an escape sequence stands for, by the character after the backslash.
pub open spec fn unescape(c: char) -> char {
    if c == 'n' {
        '\n'
    } else if c == 'r' {
        '\r'
    } else if c == 't' {
        '\t'
    } else {
        c
    }
}

/// What reading a string literal's inside gives.
pub struct StrScan {
    /// The characters of the string, escapes replaced.
    pub text: Seq<char>,
    /// Number of characters read, the closing quote included.
    pub len: nat,
    /// Whether a closing quote was found.
    pub closed: bool,
}

/// Reads the inside of a string literal from the start of `s`; `escaped` says whether the
/// character before was a backslash.
pub open spec fn scan_str(s: Seq<char>, escaped: bool) -> StrScan
    decreases s.len(),
{
    if s.len() == 0 {
        StrScan { text: seq![], len: 0, closed: false }
    } else if escaped {
        let rest = scan_str(s.skip(1), false);
        StrScan { text: seq![unescape(s[0])] + rest.text, len: 1 + rest.len, closed: rest.closed }
    } else if s[0] == '\'' {
        StrScan { text: seq![], len: 1, closed: true }
    } else if s[0] == '\\' {
        let rest = scan_str(s.skip(1), true);
        StrScan { text: rest.text, len: 1 + rest.len, closed: rest.closed }
    } else {
        let rest = scan_str(s.skip(1), false);
        StrScan { text: seq![s[0]] + rest.text, len: 1 + rest.len, closed: rest.closed }
    }
}

/// The token of a one-character symbol, if the character is one.
pub open spec fn symbol(c: char) -> Option<TokenView> {
    if c == ',' {
        Some(TokenView::Com)
    } else if c == '.' {
        Some(TokenView::Dot)
    } else if c == ';' {
        Some(TokenView::Sem)
    } else if c == '(' {
        Some(TokenView::Pal)
    } else if c == ')' {
        Some(TokenView::Par)
    } else if c == '[' {
        Some(TokenView::Sql)
    } else if c == ']' {
        Some(TokenView::Sqr)
    } else if c == '{' {
        Some(TokenView::Cul)
    } else if c == '}' {
        Some(TokenView::Cur)
    } else if c == '+' {
        Some(TokenView::Add)
    } else if c == '&' {
        Some(TokenView::Amp)
    } else if c == '@' {
        Some(TokenView::At)
    } else if c == '^' {
        Some(TokenView::Car)
    } else if c == '/' {
        Some(TokenView::Div)
    } else if c == '$' {
        Some(TokenView::Dol)
    } else if c == '*' {
        Some(TokenView::Mul)
    } else if c == '~' {
        Some(TokenView::Neg)
    } else if c == '|' {
        Some(TokenView::Pipe)
    } else if c == '%' {
        Some(TokenView::Pct)
    } else if c == '\t' {
        Some(TokenView::Tab)
    } else {
        None
    }
}

/// A symbol that may be followed by a second character to form another symbol.
pub struct Pair {
    /// The second character.
    pub next: char,
    /// The token without the second character.
    pub solo: TokenView,
    /// The token with it.
    pub pair: TokenView,
}

/// The two-character symbols, by their first character.
pub open spec fn pair_of(c: char) -> Option<Pair> {
    if c == '-' {
        Some(Pair { next: '>', solo: TokenView::Sub, pair: TokenView::Arr })
    } else if c == '<' {
        Some(Pair { next: '=', solo: TokenView::Lt, pair: TokenView::Le })
    } else if c == '>' {
        Some(Pair { next: '=', solo: TokenView::Gt, pair: TokenView::Ge })
    } else if c == '=' {
        Some(Pair { next: '=', solo: TokenView::Ass, pair: TokenView::Eql })
    } else if c == '!' {
        Some(Pair { next: '=', solo: TokenView::Not, pair: TokenView::Ne })
    } else if c == ':' {
        Some(Pair { next: ':', solo: TokenView::Col, pair: TokenView::Sup })
    } else {
        None
    }
}

/// What one step of the lexer found.
pub enum Piece {
    /// Blank input or a comment: nothing is emitted.
    Nothing,
    /// The end of a statement: emitted unless it would start the output or follow another.
    End,
    /// The end of a block: emitted with the end of a statement after it.
    Exit,
    /// A token that is emitted as it is.
    Token(TokenView),
    /// An integer literal, by its digits.
    IntText(Seq<char>),
    /// A float literal, by its digits and dots.
    FloatText(Seq<char>),
}

/// The lexer's memory of the block structure.
pub struct Layout {
    /// The indentation of each open block, outermost first; the first is 0.
    pub indents: Seq<u64>,
    /// The indentation of the line being read.
    pub current: u64,
    /// Whether the end of a statement may be emitted: something was emitted, and the
    /// last token was not itself the end of a statement.
    pub end_ok: bool,
}

/// The layout at the start of a source text.
pub open spec fn start_layout() -> Layout {
    Layout { indents: seq![0u64], current: 0, end_ok: false }
}

/// What one step of the lexer does.
pub struct Step {
    pub piece: Piece,
    /// Number of characters read.
    pub len: nat,
    /// The open blocks after the step.
    pub indents: Seq<u64>,
    /// The indentation of the current line after the step.
    pub current: u64,
}

/// A step that reads `len` characters and leaves the block structure as it is.
pub open spec fn plain_step(piece: Piece, len: nat, layout: Layout) -> Step {
    Step { piece, len, indents: layout.indents, current: layout.current }
}

/// The step at a line break: the break and the spaces after it are read. Before another
/// line break or the end of the text nothing changes; else the spaces are the new line's
/// indentation, which opens a block if it is deeper than the innermost open block.
pub open spec fn newline_step(rest: Seq<char>, layout: Layout) -> Step {
    let len = 1 + run_len(rest.skip(1), CharClass::Indent);
    if len >= rest.len() {
        plain_step(Piece::End, len, layout)
    } else if rest[len as int] == '\n' {
        plain_step(Piece::Nothing, len, layout)
    } else {
        let indent = (len - 1) as u64;
        if layout.indents.len() > 0 && indent > layout.indents.last() {
            Step {
                piece: Piece::Token(TokenView::Enter),
                len,
                indents: layout.indents.push(indent),
                current: indent,
            }
        } else {
            Step { piece: Piece::End, len, indents: layout.indents, current: indent }
        }
    }
}

/// One step of the lexer on a text that is not empty.
pub open spec fn lex_step(rest: Seq<char>, layout: Layout) -> Step {
    let c = rest[0];
    if layout.indents.len() > 0 && layout.current < layout.indents.last() {
        Step {
            piece: Piece::Exit,
            len: 0,
            indents: layout.indents.drop_last(),
            current: layout.current,
        }
    } else if c == '#' {
        plain_step(Piece::Nothing, 1 + run_len(rest.skip(1), CharClass::Comment), layout)
    } else if is_name_start(c) {
        let len = 1 + run_len(rest.skip(1), CharClass::Name);
        plain_step(Piece::Token(keyword(rest.take(len as int))), len, layout)
    } else if is_digit(c) {
        let len = 1 + run_len(rest.skip(1), CharClass::Number);
        let text = rest.take(len as int);
        if text.contains('.') {
            plain_step(Piece::FloatText(text), len, layout)
        } else {
            plain_step(Piece::IntText(text), len, layout)
        }
    } else if c == '\n' {
        newline_step(rest, layout)
    } else if c == '\'' {
        let s = scan_str(rest.skip(1), false);
        if s.closed {
            plain_step(Piece::Token(TokenView::Str(s.text)), 1 + s.len, layout)
        } else {
            plain_step(Piece::Token(TokenView::UnclosedStr(s.text)), 1 + s.len, layout)
        }
    } else {
        match pair_of(c) {
            Some(p) => if rest.len() > 1 && rest[1] == p.next {
                plain_step(Piece::Token(p.pair), 2, layout)
            } else {
                plain_step(Piece::Token(p.solo), 1, layout)
            },
            None => match symbol(c) {
                Some(t) => plain_step(Piece::Token(t), 1, layout),
                None => plain_step(Piece::Nothing, 1, layout),
            },
        }
    }
}

/// A run is no longer than its text.
pub proof fn lemma_run_len_bound(s: Seq<char>, class: CharClass)
    ensures
        run_len(s, class) <= s.len(),
    decreases s.len(),
{
    if s.len() > 0 && in_class(class, s[0]) {
        lemma_run_len_bound(s.skip(1), class);
    }
}

/// Reading a string reads no more than there is.
pub proof fn lemma_scan_str_bound(s: Seq<char>, escaped: bool)
    ensures
        scan_str(s, escaped).len <= s.len(),
        scan_str(s, escaped).text.len() <= scan_str(s, escaped).len,
    decreases s.len(),
{
    if s.len() > 0 {
        lemma_scan_str_bound(s.skip(1), false);
        lemma_scan_str_bound(s.skip(1), true);
    }
}

/// A step stays inside the text, and either reads something or closes a block.
pub proof fn lemma_step_progress(rest: Seq<char>, layout: Layout)
    requires
        rest.len() > 0,
    ensures
        lex_step(rest, layout).len <= rest.len(),
        lex_step(rest, layout).len > 0 || lex_step(rest, layout).indents.len()
            < layout.indents.len(),
{
    lemma_run_len_bound(rest.skip(1), CharClass::Comment);
    lemma_run_len_bound(rest.skip(1), CharClass::Name);
    lemma_run_len_bound(rest.skip(1), CharClass::Number);
    lemma_run_len_bound(rest.skip(1), CharClass::Indent);
    lemma_scan_str_bound(rest.skip(1), false);
}

/// The layout after a step.
pub open spec fn next_layout(step: Step, layout: Layout) -> Layout {
    Layout {
        indents: step.indents,
        current: step.current,
        end_ok: match step.piece {
            Piece::Nothing => layout.end_ok,
            Piece::End => false,
            Piece::Exit => false,
            _ => true,
        },
    }
}

/// The float that a float literal stands for: the first of the values not yet used.
pub open spec fn float_value(floats: Seq<Float>) -> Float {
    if floats.len() > 0 {
        floats[0]
    } else {
        Float { bits: 0 }
    }
}

/// The integer that an integer literal stands for.
pub open spec fn int_value(text: Seq<char>) -> i64 {
    if decimal(text) <= i64::MAX {
        decimal(text) as i64
    } else {
        0
    }
}

/// The tokens that a piece puts out.
pub open spec fn piece_tokens(piece: Piece, end_ok: bool, floats: Seq<Float>) -> Seq<TokenView> {
    match piece {
        Piece::Nothing => seq![],
        Piece::End => if end_ok {
            seq![TokenView::End]
        } else {
            seq![]
        },
        Piece::Exit => seq![TokenView::Exit, TokenView::End],
        Piece::Token(t) => seq![t],
        Piece::IntText(text) => seq![TokenView::Int(int_value(text))],
        Piece::FloatText(_) => seq![TokenView::Float(float_value(floats))],
    }
}

/// The float values left after a piece.
pub open spec fn floats_after(piece: Piece, floats: Seq<Float>) -> Seq<Float> {
    if piece is FloatText && floats.len() > 0 {
        floats.skip(1)
    } else {
        floats
    }
}

/// The float literal that a piece is, if it is one.
pub open spec fn piece_texts(piece: Piece) -> Seq<Seq<char>> {
    match piece {
        Piece::FloatText(text) => seq![text],
        _ => seq![],
    }
}

/// Whether a piece is no integer literal too large for 64 bits with a sign.
pub open spec fn piece_fits(piece: Piece) -> bool {
    match piece {
        Piece::IntText(text) => decimal(text) <= i64::MAX,
        _ => true,
    }
}

/// Tokens that all stand at one place.
pub open spec fn at_span(tokens: Seq<TokenView>, span: Span) -> Seq<SpannedView> {
    Seq::new(tokens.len(), |i: int| SpannedView { node: tokens[i], span })
}

/// The tokens that close the output: the end of the last statement if it is still open,
/// the end of each block that is still open, and the end of the input.
pub open spec fn closing(layout: Layout) -> Seq<TokenView>
    decreases layout.indents.len(),
{
    if layout.indents.len() > 1 {
        piece_tokens(Piece::End, layout.end_ok, seq![]) + seq![TokenView::Exit, TokenView::End]
            + closing(
            Layout { indents: layout.indents.drop_last(), current: layout.current, end_ok: false },
        )
    } else {
        piece_tokens(Piece::End, layout.end_ok, seq![]) + seq![TokenView::EOF]
    }
}

/// The tokens of the text `rest`, which starts at byte `base` of its source, read with
/// the given layout; float literals take their values from `floats` in order.
pub open spec fn lex_tokens(rest: Seq<char>, base: nat, layout: Layout, floats: Seq<Float>) -> Seq<
    SpannedView,
>
    decreases rest.len(), layout.indents.len(),
{
    if rest.len() == 0 {
        at_span(closing(layout), Span { low: base as u64, high: base as u64 })
    } else {
        proof {
            lemma_step_progress(rest, layout);
        }
        let step = lex_step(rest, layout);
        let next = base + byte_len(rest.take(step.len as int));
        at_span(
            piece_tokens(step.piece, layout.end_ok, floats),
            Span { low: base as u64, high: next as u64 },
        ) + lex_tokens(
            rest.skip(step.len as int),
            next,
            next_layout(step, layout),
            floats_after(step.piece, floats),
        )
    }
}

/// The texts of the float literals of `rest`, in order.
pub open spec fn float_texts(rest: Seq<char>, layout: Layout) -> Seq<Seq<char>>
    decreases rest.len(), layout.indents.len(),
{
    if rest.len() == 0 {
        seq![]
    } else {
        proof {
            lemma_step_progress(rest, layout);
        }
        let step = lex_step(rest, layout);
        let tail = float_texts(rest.skip(step.len as int), next_layout(step, layout));
        piece_texts(step.piece) + tail
    }
}

/// Whether every integer literal of `rest` fits in 64 bits with a sign.
pub open spec fn ints_fit(rest: Seq<char>, layout: Layout) -> bool
    decreases rest.len(), layout.indents.len(),
{
    if rest.len() == 0 {
        true
    } else {
        proof {
            lemma_step_progress(rest, layout);
        }
        let step = lex_step(rest, layout);
        let tail = ints_fit(rest.skip(step.len as int), next_layout(step, layout));
        piece_fits(step.piece) && tail
    }
}

/// The tokens of a whole source text.
pub open spec fn source_tokens(source: Seq<char>, floats: Seq<Float>) -> Seq<SpannedView> {
    lex_tokens(source, 0, start_layout(), floats)
}

/// The texts of the float literals of a whole source text, in order.
pub open spec fn source_floats(source: Seq<char>) -> Seq<Seq<char>> {
    float_texts(source, start_layout())
}

/// Whether a source text can be read with the given float values: every integer literal
/// fits, and there is a value for every float literal.
pub open spec fn readable(source: Seq<char>, floats: Seq<Float>) -> bool {
    ints_fit(source, start_layout()) && source_floats(source).len() <= floats.len()
}

} // verus!
