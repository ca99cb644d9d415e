use vstd::prelude::*;
use vstd::utf8::encode_scalar;
use vstd::utf8::encode_utf8;
use crate::lexer::grammar::CharClass;
use crate::lexer::grammar::byte_len;
use crate::lexer::grammar::decimal;
use crate::lexer::grammar::digit_value;
use crate::lexer::grammar::in_class;
use crate::lexer::grammar::is_digit;
use crate::lexer::grammar::is_name_start;
use crate::lexer::grammar::run_len;
use crate::lexer::grammar::utf8_len;

verus! {

/// `String::push` appends one character.
pub assume_specification[ String::push ](s: &mut String, c: char)
    ensures
        final(s)@ == old(s)@.push(c),
;

/// Appends one character.
pub fn string_push(s: &mut String, c: char)
    ensures
        final(s)@ == old(s)@.push(c),
{
    s.push(c);
}

/// The byte length of a text is the sum of those of its parts.
pub proof fn lemma_byte_len_concat(a: Seq<char>, b: Seq<char>)
    ensures
        byte_len(a + b) == byte_len(a) + byte_len(b),
    decreases b.len(),
{
    if b.len() == 0 {
        assert(a + b =~= a);
    } else {
        assert((a + b).drop_last() =~= a + b.drop_last());
        lemma_byte_len_concat(a, b.drop_last());
    }
}

/// The byte length of a text up to `j` is that up to `i` plus that of what lies between.
pub proof fn lemma_byte_len_split(s: Seq<char>, i: int, j: int)
    requires
        0 <= i <= j <= s.len(),
    ensures
        byte_len(s.take(j)) == byte_len(s.take(i)) + byte_len(s.skip(i).take(j - i)),
{
    assert(s.take(j) =~= s.take(i) + s.skip(i).take(j - i));
    lemma_byte_len_concat(s.take(i), s.skip(i).take(j - i));
}

/// The byte length is that of the UTF-8 encoding.
pub proof fn lemma_byte_len_encoded(s: Seq<char>)
    ensures
        byte_len(s) == encode_utf8(s).len(),
    decreases s.len(),
{
    if s.len() > 0 {
        let head = seq![s[0]];
        let tail = s.drop_first();
        assert(s =~= head + tail);
        lemma_byte_len_concat(head, tail);
        lemma_byte_len_encoded(tail);
        assert(head.drop_last() =~= Seq::<char>::empty());
        assert(byte_len(head) == utf8_len(s[0])) by {
            reveal_with_fuel(byte_len, 2);
        }
        vstd::utf8::char_is_scalar(s[0]);
        assert(encode_scalar(s[0] as u32).len() == utf8_len(s[0]));
    }
}

/// A run has length `n` if its first `n` characters are of the class and the next is not.
pub proof fn lemma_run_len(s: Seq<char>, class: CharClass, n: nat)
    requires
        n <= s.len(),
        forall|k: int| 0 <= k < n ==> in_class(class, s[k]),
        n < s.len() ==> !in_class(class, s[n as int]),
    ensures
        run_len(s, class) == n,
    decreases n,
{
    if n > 0 {
        let rest = s.skip(1);
        assert forall|k: int| 0 <= k < n - 1 implies in_class(class, rest[k]) by {
            assert(rest[k] == s[k + 1]);
        }
        lemma_run_len(rest, class, (n - 1) as nat);
    }
}

/// The characters of a text.
pub fn chars_of(text: &str) -> (chars: Vec<char>)
    ensures
        chars@ == text@,
{
    let mut chars: Vec<char> = Vec::new();
    proof {
        assert(text@.take(0) =~= Seq::<char>::empty());
    }
    for c in it: text.chars()
        invariant
            it.seq() == text@,
            chars@ == text@.take(it.index() as int),
    {
        let ghost i = it.index();
        chars.push(c);
        assert(chars@ =~= text@.take(i + 1));
    }
    assert(text@.take(text@.len() as int) =~= text@);
    chars
}

/// The characters of a source text, and the byte offset of each of them and of the end.
pub fn source_chars(source: &str) -> (r: (Vec<char>, Vec<u64>))
    ensures
        r.0@ == source@,
        r.1@.len() == source@.len() + 1,
        forall|i: int| 0 <= i <= source@.len() ==> r.1@[i] == byte_len(source@.take(i)),
{
    let total: usize = source.as_bytes().len();
    let mut chars: Vec<char> = Vec::new();
    let mut offsets: Vec<u64> = Vec::new();
    let mut offset: u64 = 0;
    offsets.push(0);
    proof {
        lemma_byte_len_encoded(source@);
        assert(source@.take(0) =~= Seq::<char>::empty());
    }
    for c in it: source.chars()
        invariant
            it.seq() == source@,
            total == byte_len(source@),
            chars@ == source@.take(it.index() as int),
            offsets@.len() == it.index() + 1,
            offset == byte_len(source@.take(it.index() as int)),
            forall|j: int| 0 <= j <= it.index() ==> offsets@[j] == byte_len(source@.take(j)),
    {
        let ghost i = it.index();
        let width = char_width(c);
        proof {
            let n = source@.len();
            lemma_byte_len_split(source@, i as int, i + 1);
            lemma_byte_len_split(source@, i + 1, n as int);
            assert(source@.take(n as int) =~= source@);
            let one = source@.skip(i as int).take(1);
            assert(one.drop_last() =~= Seq::<char>::empty());
            assert(one.last() == c);
            assert(byte_len(one) == utf8_len(c)) by {
                reveal_with_fuel(byte_len, 2);
            }
        }
        offset = offset + width;
        chars.push(c);
        offsets.push(offset);
        assert(chars@ =~= source@.take(i + 1));
    }
    assert(chars@ =~= source@);
    (chars, offsets)
}

/// Number of bytes of a character in UTF-8.
pub fn char_width(c: char) -> (w: u64)
    ensures
        w == utf8_len(c),
{
    let v: u32 = c as u32;
    if v < 0x80 {
        1
    } else if v < 0x800 {
        2
    } else if v < 0x10000 {
        3
    } else {
        4
    }
}

/// Whether a character belongs to a class.
pub fn char_in_class(class: CharClass, c: char) -> (r: bool)
    ensures
        r == in_class(class, c),
{
    match class {
        CharClass::Number => ('0' <= c && c <= '9') || c == '.',
        CharClass::Name => ('a' <= c && c <= 'z') || ('A' <= c && c <= 'Z') || c == '_' || ('0'
            <= c && c <= '9'),
        CharClass::Comment => c != '\n',
        CharClass::Indent => c == ' ',
    }
}

/// Whether a character can start a name.
pub fn starts_name(c: char) -> (r: bool)
    ensures
        r == is_name_start(c),
{
    ('a' <= c && c <= 'z') || ('A' <= c && c <= 'Z') || c == '_'
}

/// Whether a character is a decimal digit.
pub fn digit(c: char) -> (r: bool)
    ensures
        r == is_digit(c),
{
    '0' <= c && c <= '9'
}

/// The end of the run of characters of `class` that starts at `start`.
pub fn scan_run(chars: &Vec<char>, start: usize, class: CharClass) -> (end: usize)
    requires
        start <= chars.len(),
    ensures
        start <= end <= chars.len(),
        end - start == run_len(chars@.skip(start as int), class),
{
    let mut i: usize = start;
    while i < chars.len() && char_in_class(class, chars[i])
        invariant
            start <= i <= chars.len(),
            forall|k: int| start <= k < i ==> in_class(class, chars@[k]),
        decreases chars.len() - i,
    {
        i = i + 1;
    }
    proof {
        lemma_run_len(chars@.skip(start as int), class, (i - start) as nat);
    }
    i
}

/// The characters from `start` to `end` as a string.
pub fn slice_string(chars: &Vec<char>, start: usize, end: usize) -> (s: String)
    requires
        start <= end <= chars.len(),
    ensures
        s@ == chars@.subrange(start as int, end as int),
{
    let mut s = String::new();
    let mut i: usize = start;
    while i < end
        invariant
            start <= i <= end <= chars.len(),
            s@ == chars@.subrange(start as int, i as int),
        decreases end - i,
    {
        s.push(chars[i]);
        i = i + 1;
        assert(s@ =~= chars@.subrange(start as int, i as int));
    }
    s
}

/// Whether the characters from `start` to `end` spell `word`.
pub fn spells(chars: &Vec<char>, start: usize, end: usize, word: &str) -> (r: bool)
    requires
        start <= end <= chars.len(),
    ensures
        r == (chars@.subrange(start as int, end as int) == word@),
{
    let n: usize = word.unicode_len();
    if n != end - start {
        return false;
    }
    let ghost text = chars@.subrange(start as int, end as int);
    let mut i: usize = 0;
    while i < n
        invariant
            n == word@.len(),
            n == end - start,
            start <= end <= chars.len(),
            i <= n,
            text == chars@.subrange(start as int, end as int),
            forall|k: int| 0 <= k < i ==> text[k] == word@[k],
        decreases n - i,
    {
        if chars[start + i] != word.get_char(i) {
            assert(text[i as int] != word@[i as int]);
            return false;
        }
        i = i + 1;
    }
    assert(text =~= word@);
    true
}

/// The value of the digits from `start` to `end`, and whether it fits in 64 bits with
/// a sign; the value is 0 where it does not fit.
pub fn parse_int(chars: &Vec<char>, start: usize, end: usize) -> (r: (i64, bool))
    requires
        start <= end <= chars.len(),
        forall|k: int| start <= k < end ==> is_digit(chars@[k]),
    ensures
        r.1 == (decimal(chars@.subrange(start as int, end as int)) <= i64::MAX),
        r.1 ==> r.0 == decimal(chars@.subrange(start as int, end as int)),
        !r.1 ==> r.0 == 0,
{
    let mut value: i64 = 0;
    let mut fits = true;
    let mut i: usize = start;
    assert(chars@.subrange(start as int, start as int) =~= Seq::<char>::empty());
    while i < end
        invariant
            start <= i <= end <= chars.len(),
            forall|k: int| start <= k < end ==> is_digit(chars@[k]),
            fits == (decimal(chars@.subrange(start as int, i as int)) <= i64::MAX),
            fits ==> value == decimal(chars@.subrange(start as int, i as int)),
            value >= 0,
        decreases end - i,
    {
        let c = chars[i];
        let d: i64 = (c as u32 - '0' as u32) as i64;
        proof {
            let next = chars@.subrange(start as int, i + 1);
            assert(next.drop_last() =~= chars@.subrange(start as int, i as int));
            assert(next.last() == c);
            assert(d == digit_value(c));
        }
        if fits {
            if value > (i64::MAX - d) / 10 {
                fits = false;
            } else {
                value = value * 10 + d;
            }
        }
        i = i + 1;
    }
    if fits {
        (value, true)
    } else {
        (0, false)
    }
}

/// Whether one of the characters from `start` to `end` is a dot.
pub fn has_dot(chars: &Vec<char>, start: usize, end: usize) -> (r: bool)
    requires
        start <= end <= chars.len(),
    ensures
        r == chars@.subrange(start as int, end as int).contains('.'),
{
    let ghost text = chars@.subrange(start as int, end as int);
    let mut i: usize = start;
    while i < end
        invariant
            start <= i <= end <= chars.len(),
            text == chars@.subrange(start as int, end as int),
            forall|k: int| 0 <= k < i - start ==> text[k] != '.',
        decreases end - i,
    {
        if chars[i] == '.' {
            assert(text[i - start] == '.');
            return true;
        }
        i = i + 1;
    }
    false
}

} // verus!
