use vstd::prelude::*;
use crate::lexer::grammar::CharClass;
use crate::lexer::grammar::Layout;
use crate::lexer::grammar::in_class;
use crate::lexer::grammar::lemma_scan_str_bound;
use crate::lexer::grammar::lex_step;
use crate::lexer::grammar::newline_step;
use crate::lexer::grammar::run_len;
use crate::lexer::grammar::scan_str;

verus! {

/// Whether two texts are the same up to index `k`, where both have a line break.
pub open spec fn agree(a: Seq<char>, b: Seq<char>, k: nat) -> bool {
    &&& k < a.len()
    &&& k < b.len()
    &&& a[k as int] == '\n'
    &&& forall|i: int| 0 <= i <= k ==> a[i] == b[i]
}

/// A run ends before a line break, so it is the same in texts that agree up to one.
pub proof fn lemma_run_local(a: Seq<char>, b: Seq<char>, class: CharClass, m: nat)
    requires
        agree(a, b, m),
    ensures
        run_len(a, class) == run_len(b, class),
        run_len(a, class) <= m,
    decreases m,
{
    if in_class(class, a[0]) {
        assert(a[0] == b[0]);
        assert(m > 0);
        assert forall|i: int| 0 <= i <= m - 1 implies a.skip(1)[i] == b.skip(1)[i] by {
            assert(a.skip(1)[i] == a[i + 1]);
            assert(b.skip(1)[i] == b[i + 1]);
        }
        lemma_run_local(a.skip(1), b.skip(1), class, (m - 1) as nat);
    } else {
        assert(a[0] == b[0]);
    }
}

/// A string literal without its closing quote takes all of the text.
pub proof fn lemma_unclosed_takes_all(s: Seq<char>, escaped: bool)
    ensures
        !scan_str(s, escaped).closed ==> scan_str(s, escaped).len == s.len(),
    decreases s.len(),
{
    if s.len() > 0 {
        lemma_unclosed_takes_all(s.skip(1), false);
        lemma_unclosed_takes_all(s.skip(1), true);
    }
}

/// A string literal that ends within the part in which two texts agree is the same
/// in both.
pub proof fn lemma_scan_local(a: Seq<char>, b: Seq<char>, escaped: bool, m: nat)
    requires
        m <= a.len(),
        m <= b.len(),
        forall|i: int| 0 <= i < m ==> a[i] == b[i],
        scan_str(a, escaped).len <= m,
        scan_str(a, escaped).closed,
    ensures
        scan_str(b, escaped) == scan_str(a, escaped),
    decreases a.len(),
{
    if a.len() > 0 {
        lemma_scan_str_bound(a.skip(1), false);
        lemma_scan_str_bound(a.skip(1), true);
        assert(m > 0);
        assert(a[0] == b[0]);
        assert forall|i: int| 0 <= i < m - 1 implies a.skip(1)[i] == b.skip(1)[i] by {
            assert(a.skip(1)[i] == a[i + 1]);
            assert(b.skip(1)[i] == b[i + 1]);
        }
        if escaped {
            lemma_scan_local(a.skip(1), b.skip(1), false, (m - 1) as nat);
        } else if a[0] == '\'' {
        } else if a[0] == '\\' {
            lemma_scan_local(a.skip(1), b.skip(1), true, (m - 1) as nat);
        } else {
            lemma_scan_local(a.skip(1), b.skip(1), false, (m - 1) as nat);
        }
    }
}

/// The rest of two texts that agree up to a line break, after a first character that
/// is no line break, agrees up to that line break.
pub proof fn lemma_agree_skip(a: Seq<char>, b: Seq<char>, k: nat, n: nat)
    requires
        agree(a, b, k),
        n <= k,
    ensures
        agree(a.skip(n as int), b.skip(n as int), (k - n) as nat),
{
    assert forall|i: int| 0 <= i <= k - n implies a.skip(n as int)[i] == b.skip(n as int)[i] by {
        assert(a.skip(n as int)[i] == a[i + n]);
        assert(b.skip(n as int)[i] == b[i + n]);
    }
}

/// A step that ends at or before a line break up to which two texts agree is the same
/// in both.
pub proof fn lemma_step_local(a: Seq<char>, b: Seq<char>, layout: Layout, k: nat)
    requires
        agree(a, b, k),
        k > 0,
        lex_step(a, layout).len <= k,
    ensures
        lex_step(b, layout) == lex_step(a, layout),
{
    let c = a[0];
    assert(b[0] == c);
    if layout.indents.len() > 0 && layout.current < layout.indents.last() {
    } else {
        lemma_agree_skip(a, b, k, 1);
        let m = (k - 1) as nat;
        lemma_run_local(a.skip(1), b.skip(1), CharClass::Comment, m);
        lemma_run_local(a.skip(1), b.skip(1), CharClass::Name, m);
        lemma_run_local(a.skip(1), b.skip(1), CharClass::Number, m);
        lemma_run_local(a.skip(1), b.skip(1), CharClass::Indent, m);
        let len = lex_step(a, layout).len;
        assert(a.take(len as int) =~= b.take(len as int));
        assert(a[1] == b[1]);
        if c == '\'' {
            let s = scan_str(a.skip(1), false);
            lemma_unclosed_takes_all(a.skip(1), false);
            assert(1 + s.len <= k);
            assert forall|i: int| 0 <= i < m implies a.skip(1)[i] == b.skip(1)[i] by {
                assert(a.skip(1)[i] == a[i + 1]);
                assert(b.skip(1)[i] == b[i + 1]);
            }
            lemma_scan_local(a.skip(1), b.skip(1), false, m);
        } else if c == '\n' {
            assert(a[len as int] == b[len as int]);
            assert(newline_step(a, layout) == newline_step(b, layout));
        }
    }
}

} // verus!
