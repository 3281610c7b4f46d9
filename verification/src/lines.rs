//! Splitting a document into lines.
//!
//! A line ends at a line feed, or at a carriage return directly followed by
//! a line feed. Neither belongs to the line. The end of the document ends
//! the last line too, so a final line feed starts no further, empty line.

use vstd::prelude::*;

verus! {

/// No character of `text` is a line feed.
pub open spec fn no_line_feed(text: Seq<char>) -> bool {
    forall|i: int| 0 <= i < text.len() ==> text[i] != '\n'
}

/// Where the first line of `text` ends: the index of the first line feed,
/// or `text.len()` when `text` holds none.
pub open spec fn first_line_end(text: Seq<char>) -> nat
    decreases text.len(),
{
    if text.len() == 0 || text[0] == '\n' {
        0
    } else {
        1 + first_line_end(text.drop_first())
    }
}

/// `text` without its last character when that is a carriage return.
pub open spec fn without_carriage_return(text: Seq<char>) -> Seq<char> {
    if text.len() > 0 && text.last() == '\r' {
        text.drop_last()
    } else {
        text
    }
}

/// The lines of `text`, in order.
///
/// Each line feed ends a line; a carriage return directly before it is
/// dropped with it. What follows the last line feed is a line of its own
/// unless it is empty, and keeps a carriage return at its end.
pub open spec fn lines_of(text: Seq<char>) -> Seq<Seq<char>>
    decreases text.len(),
{
    if text.len() == 0 {
        Seq::empty()
    } else {
        let end: int = first_line_end(text) as int;
        if end >= text.len() {
            seq![text]
        } else {
            seq![without_carriage_return(text.take(end))] + lines_of(text.skip(end + 1))
        }
    }
}

/// `first_line_end` is the one index that has no line feed before it and
/// either a line feed at it or the end of the text.
pub proof fn lemma_first_line_end(text: Seq<char>, end: int)
    requires
        0 <= end <= text.len(),
        no_line_feed(text.take(end)),
        end < text.len() ==> text[end] == '\n',
    ensures
        first_line_end(text) == end,
    decreases text.len(),
{
    if text.len() == 0 {
    } else if end == 0 {
    } else {
        assert(text.take(end)[0] == text[0]);
        let rest = text.drop_first();
        let head = rest.take(end - 1);
        assert forall|i: int| 0 <= i < head.len() implies head[i] != '\n' by {
            assert(head[i] == text.take(end)[i + 1]);
        }
        lemma_first_line_end(rest, end - 1);
    }
}

/// The first line of `text` ends within `text`, holds no line feed, and ends
/// at a line feed unless it ends with `text`.
pub proof fn lemma_first_line_end_is_first(text: Seq<char>)
    ensures
        first_line_end(text) <= text.len(),
        no_line_feed(text.take(first_line_end(text) as int)),
        first_line_end(text) < text.len() ==> text[first_line_end(text) as int] == '\n',
    decreases text.len(),
{
    if text.len() == 0 || text[0] == '\n' {
    } else {
        let rest = text.drop_first();
        lemma_first_line_end_is_first(rest);
        let end: int = first_line_end(text) as int;
        let head = text.take(end);
        assert forall|i: int| 0 <= i < head.len() implies head[i] != '\n' by {
            if i > 0 {
                assert(head[i] == rest.take(end - 1)[i - 1]);
            }
        }
    }
}

/// When `text` holds no line feed from `start` up to a line feed at `end`,
/// the lines from `start` on are the stretch between the two, without a
/// carriage return at its end, and then the lines after `end`.
proof fn lemma_lines_at_line_feed(text: Seq<char>, start: int, end: int)
    requires
        0 <= start <= end < text.len(),
        no_line_feed(text.subrange(start, end)),
        text[end] == '\n',
    ensures
        lines_of(text.skip(start)) == seq![without_carriage_return(text.subrange(start, end))]
            + lines_of(text.skip(end + 1)),
{
    let rest = text.skip(start);
    assert(rest.take(end - start) =~= text.subrange(start, end));
    lemma_first_line_end(rest, end - start);
    assert(rest.skip(end - start + 1) =~= text.skip(end + 1));
}

/// When `text` holds no line feed from `start` on, what stands there is
/// its last line, or no line at all when nothing stands there.
proof fn lemma_lines_at_end(text: Seq<char>, start: int)
    requires
        0 <= start <= text.len(),
        no_line_feed(text.skip(start)),
    ensures
        lines_of(text.skip(start)) == if start == text.len() {
            Seq::<Seq<char>>::empty()
        } else {
            seq![text.skip(start)]
        },
{
    let rest = text.skip(start);
    lemma_first_line_end(rest, rest.len() as int);
}

/// Splits `text` into its lines.
pub fn split_lines(text: &str) -> (lines: Vec<Vec<char>>)
    ensures
        lines.deep_view() == lines_of(text@),
{
    let mut lines: Vec<Vec<char>> = Vec::new();
    let mut line: Vec<char> = Vec::new();
    assert(text@.skip(0) =~= text@);
    for c in walk: text.chars()
        invariant
            walk.seq() == text@,
            line@.len() <= walk.index(),
            line@ == text@.subrange(walk.index() - line@.len(), walk.index() as int),
            no_line_feed(line@),
            lines.deep_view() + lines_of(text@.skip(walk.index() - line@.len())) == lines_of(
                text@,
            ),
    {
        let ghost at: int = walk.index() as int;
        let ghost start: int = at - line@.len();
        if c == '\n' {
            proof {
                lemma_lines_at_line_feed(text@, start, at);
            }
            if line.len() > 0 && line[line.len() - 1] == '\r' {
                line.pop();
            }
            let ghost before = lines.deep_view();
            let ghost ended = line@;
            lines.push(line);
            assert(lines.deep_view() =~~= before.push(ended));
            line = Vec::new();
        } else {
            line.push(c);
        }
    }
    proof {
        lemma_lines_at_end(text@, text@.len() - line@.len());
    }
    if line.len() > 0 {
        let ghost before = lines.deep_view();
        let ghost last = line@;
        lines.push(line);
        assert(lines.deep_view() =~~= before.push(last));
    }
    lines
}

/// No line holds a line feed.
pub proof fn lemma_lines_hold_no_line_feed(text: Seq<char>, i: int)
    requires
        0 <= i < lines_of(text).len(),
    ensures
        no_line_feed(lines_of(text)[i]),
    decreases text.len(),
{
    lemma_first_line_end_is_first(text);
    let end: int = first_line_end(text) as int;
    if end >= text.len() {
        assert(text.take(end) =~= text);
    } else if i == 0 {
        assert(no_line_feed(without_carriage_return(text.take(end))));
    } else {
        lemma_lines_hold_no_line_feed(text.skip(end + 1), i - 1);
    }
}

/// A line feed at the very end of a text ends its last line and starts no
/// further one: a text that ends in neither a line feed nor a carriage
/// return has the same lines with a line feed after it.
pub proof fn lemma_final_line_feed_adds_no_line(text: Seq<char>)
    requires
        text.len() > 0,
        text.last() != '\n',
        text.last() != '\r',
    ensures
        lines_of(text.push('\n')) == lines_of(text),
    decreases text.len(),
{
    lemma_first_line_end_is_first(text);
    let end: int = first_line_end(text) as int;
    let longer = text.push('\n');
    assert(longer.take(end) =~= text.take(end));
    lemma_first_line_end(longer, end);
    if end >= text.len() {
        assert(text.take(end) =~= text);
        assert(lines_of(longer.skip(end + 1)) =~= Seq::<Seq<char>>::empty());
    } else {
        let rest = text.skip(end + 1);
        assert(longer.skip(end + 1) =~= rest.push('\n'));
        lemma_final_line_feed_adds_no_line(rest);
    }
}

/// A carriage return directly before a line feed ends the line with it:
/// where the text before the two does not itself end in a carriage return,
/// the lines are those of the text with the line feed alone.
pub proof fn lemma_carriage_return_joins_line_feed(before: Seq<char>, after: Seq<char>)
    requires
        before.len() == 0 || before.last() != '\r',
    ensures
        lines_of(before + seq!['\r', '\n'] + after) == lines_of(before + seq!['\n'] + after),
    decreases before.len(),
{
    let with_both = before + seq!['\r', '\n'] + after;
    let with_one = before + seq!['\n'] + after;
    lemma_first_line_end_is_first(before);
    let end: int = first_line_end(before) as int;
    if end >= before.len() {
        assert(before.take(end) =~= before);
        let head = before.push('\r');
        assert(with_both.take(end + 1) =~= head);
        assert(no_line_feed(head));
        lemma_first_line_end(with_both, end + 1);
        assert(with_one.take(end) =~= before);
        lemma_first_line_end(with_one, end);
        assert(with_both.skip(end + 2) =~= after);
        assert(with_one.skip(end + 1) =~= after);
        assert(without_carriage_return(head) =~= before);
    } else {
        assert(with_both.take(end) =~= before.take(end));
        assert(with_one.take(end) =~= before.take(end));
        lemma_first_line_end(with_both, end);
        lemma_first_line_end(with_one, end);
        let rest = before.skip(end + 1);
        assert(with_both.skip(end + 1) =~= rest + seq!['\r', '\n'] + after);
        assert(with_one.skip(end + 1) =~= rest + seq!['\n'] + after);
        lemma_carriage_return_joins_line_feed(rest, after);
    }
}

} // verus!
