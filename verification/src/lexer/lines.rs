use vstd::prelude::*;
use crate::float::Float;
use crate::lexer::blank::blank_line;
use crate::lexer::grammar::source_tokens;
use crate::lexer::grammar::start_layout;
use crate::lexer::local::agree;
use crate::lexer::reach::between_tokens;
use crate::lexer::reach::inserted;
use crate::lexer::reach::lemma_blank_line_inserted;
use crate::lexer::reach::lemma_reach_local;
use crate::span::nodes_of;

verus! {

/// A blank line to be put into a source text: the index of the line break that it
/// follows, and the number of spaces that it holds.
pub struct BlankLine {
    pub after: nat,
    pub width: nat,
}

/// Whether the blank lines are given from the end of the text to its start, each after
/// a line break of the text that stands between two tokens. Several may follow the
/// same line break.
pub open spec fn blank_lines_fit(source: Seq<char>, floats: Seq<Float>, lines: Seq<BlankLine>) -> bool {
    &&& forall|i: int| 0 <= i < lines.len() ==> between_tokens(source, floats, (#[trigger] lines[i]).after)
    &&& forall|i: int, j: int| 0 <= i < j < lines.len() ==> lines[i].after >= lines[j].after
}

/// The source text with every one of the blank lines put into it.
pub open spec fn with_blank_lines(source: Seq<char>, lines: Seq<BlankLine>) -> Seq<char>
    decreases lines.len(),
{
    if lines.len() == 0 {
        source
    } else {
        with_blank_lines(
            inserted(source, lines[0].after + 1, blank_line(lines[0].width)),
            lines.skip(1),
        )
    }
}

/// Blank lines change no token, however many are put into a text and at however many
/// places: the text with all of them has the tokens of the text without them.
pub proof fn lemma_blank_lines_inserted(source: Seq<char>, floats: Seq<Float>, lines: Seq<BlankLine>)
    requires
        blank_lines_fit(source, floats, lines),
    ensures
        nodes_of(source_tokens(with_blank_lines(source, lines), floats)) == nodes_of(
            source_tokens(source, floats),
        ),
    decreases lines.len(),
{
    if lines.len() > 0 {
        let first = lines[0];
        let longer = inserted(source, first.after + 1, blank_line(first.width));
        let rest = lines.skip(1);
        lemma_blank_line_inserted(source, floats, first.after, first.width);
        assert forall|i: int| 0 <= i < rest.len() implies between_tokens(
            longer,
            floats,
            (#[trigger] rest[i]).after,
        ) by {
            let k = rest[i].after;
            assert(rest[i] == lines[i + 1]);
            assert(between_tokens(source, floats, k));
            assert(k <= first.after);
            assert forall|m: int| 0 <= m <= k implies source[m] == longer[m] by {
                assert(longer[m] == source.take(first.after as int + 1)[m]);
            }
            assert(agree(source, longer, k));
            lemma_reach_local(source, longer, start_layout(), floats, k);
        }
        assert forall|i: int, j: int| 0 <= i < j < rest.len() implies rest[i].after
            >= rest[j].after by {
            assert(rest[i] == lines[i + 1]);
            assert(rest[j] == lines[j + 1]);
        }
        lemma_blank_lines_inserted(longer, floats, rest);
    }
}

} // verus!
