use vstd::prelude::*;

use crate::data::data_text;
use crate::data::digit_char;
use crate::data::digits;
use crate::data::DataView;

verus! {

/// The value of a digit: what `digit_char` was made from.
pub open spec fn digit_value(c: char) -> nat {
    if (c as nat) < 58 {
        (c as nat - 48) as nat
    } else {
        (c as nat - 87) as nat
    }
}

/// The number that a sequence of digits stands for, most significant digit first.
pub open spec fn number_of(s: Seq<char>, base: nat) -> nat
    decreases s.len(),
{
    if s.len() == 0 {
        0
    } else {
        number_of(s.drop_last(), base) * base + digit_value(s.last())
    }
}

/// A digit stands for the value it was made from.
pub proof fn lemma_digit_value(d: nat)
    requires
        d < 16,
    ensures
        digit_value(digit_char(d)) == d,
{
}

/// The digits of a number stand for that number: no two numbers share their digits.
pub proof fn lemma_digits_read_back(n: nat, base: nat)
    requires
        2 <= base <= 16,
    ensures
        number_of(digits(n, base), base) == n,
    decreases n,
{
    if n < base {
        let s = seq![digit_char(n)];
        lemma_digit_value(n);
        assert(s.drop_last() =~= Seq::<char>::empty());
        assert(s.last() == digit_char(n));
        assert(number_of(s.drop_last(), base) == 0);
        assert(number_of(s, base) == 0 * base + n);
        assert(digits(n, base) == s);
    } else {
        let q = n / base;
        let r = n % base;
        assert(q < n && r < base && q * base + r == n) by (nonlinear_arith)
            requires
                base >= 2,
                n >= base,
                q == n / base,
                r == n % base,
        ;
        lemma_digits_read_back(q, base);
        lemma_digit_value(r);
        let s = digits(q, base).push(digit_char(r));
        assert(s.drop_last() =~= digits(q, base));
        assert(s.last() == digit_char(r));
        assert(number_of(s, base) == q * base + r);
        assert(digits(n, base) == s);
    }
}

/// What stands between the same two texts is the same if the whole is.
pub proof fn lemma_between(front: Seq<char>, a: Seq<char>, b: Seq<char>, back: Seq<char>)
    requires
        front + a + back == front + b + back,
    ensures
        a == b,
{
    let x = front + a + back;
    let y = front + b + back;
    assert(x.len() == y.len());
    assert(a.len() == b.len());
    assert forall|i: int| 0 <= i < a.len() implies a[i] == b[i] by {
        assert(x[front.len() + i] == a[i]);
        assert(y[front.len() + i] == b[i]);
    }
    assert(a =~= b);
}

/// Two tables print as two texts: the text of a table tells which table it is, and,
/// made from the handle alone, stays the same whatever the table comes to hold.
pub proof fn lemma_table_texts_differ(a: usize, b: usize)
    requires
        a != b,
    ensures
        data_text(DataView::Table(a)) is Some,
        data_text(DataView::Table(b)) is Some,
        data_text(DataView::Table(a)) != data_text(DataView::Table(b)),
{
    if data_text(DataView::Table(a)) == data_text(DataView::Table(b)) {
        lemma_between("table["@, digits(a as nat, 16), digits(b as nat, 16), "]"@);
        lemma_digits_read_back(a as nat, 16);
        lemma_digits_read_back(b as nat, 16);
    }
}

} // verus!
