//! The two whitespace rules as mathematics: what the logical lines of a text
//! are, which of them end in blanks, and how the end of a text is classified.

use vstd::prelude::*;

verus! {

/// The characters that count as trailing whitespace: space and tab.
/// A carriage return is not one of them.
pub open spec fn is_blank(c: char) -> bool {
    c == ' ' || c == '\t'
}

/// A line has trailing whitespace when it is not empty and its last
/// character is a blank. A line made of blanks only therefore has it too.
pub open spec fn has_trailing_blank(line: Seq<char>) -> bool {
    line.len() > 0 && is_blank(line.last())
}

/// The index of the first line feed in `s`, or `s.len()` when there is none.
pub open spec fn first_break(s: Seq<char>) -> nat
    decreases s.len(),
{
    if s.len() == 0 || s[0] == '\n' {
        0
    } else {
        1 + first_break(s.drop_first())
    }
}

/// A terminated line without the carriage return that stood before its line feed.
pub open spec fn strip_cr(line: Seq<char>) -> Seq<char> {
    if line.len() > 0 && line.last() == '\r' {
        line.drop_last()
    } else {
        line
    }
}

/// The logical lines of a text. A line ends at a line feed, or at a carriage
/// return directly followed by one; the terminator is not part of the line.
/// The terminator of the last line does not open a further, empty line, and a
/// last line without a terminator keeps every character it has.
pub open spec fn lines_of(s: Seq<char>) -> Seq<Seq<char>>
    decreases s.len(),
{
    if s.len() == 0 {
        Seq::empty()
    } else {
        let k = first_break(s);
        if k >= s.len() {
            seq![s]
        } else {
            seq![strip_cr(s.take(k as int))] + lines_of(s.skip(k as int + 1))
        }
    }
}

/// The 1-based numbers, ascending, of the lines that have trailing whitespace.
pub open spec fn blank_ended(lines: Seq<Seq<char>>) -> Seq<nat>
    decreases lines.len(),
{
    if lines.len() == 0 {
        Seq::empty()
    } else if has_trailing_blank(lines.last()) {
        blank_ended(lines.drop_last()).push(lines.len())
    } else {
        blank_ended(lines.drop_last())
    }
}

/// `first_break` is a position of `s` or its length, no character before it
/// is a line feed, and the character at it, if there is one, is a line feed.
pub proof fn lemma_first_break(s: Seq<char>)
    ensures
        first_break(s) <= s.len(),
        forall|j: int| 0 <= j < first_break(s) ==> s[j] != '\n',
        first_break(s) < s.len() ==> s[first_break(s) as int] == '\n',
    decreases s.len(),
{
    if s.len() == 0 || s[0] == '\n' {
    } else {
        let t = s.drop_first();
        lemma_first_break(t);
        assert forall|j: int| 0 <= j < first_break(s) implies s[j] != '\n' by {
            if j > 0 {
                assert(s[j] == t[j - 1]);
            }
        }
        if first_break(s) < s.len() {
            assert(s[first_break(s) as int] == t[first_break(t) as int]);
        }
    }
}

/// The first position that is the end of `s` or holds a line feed is `first_break(s)`.
pub proof fn lemma_first_break_is(s: Seq<char>, k: int)
    requires
        0 <= k <= s.len(),
        forall|j: int| 0 <= j < k ==> s[j] != '\n',
        k == s.len() || s[k] == '\n',
    ensures
        first_break(s) == k,
{
    lemma_first_break(s);
    let f = first_break(s) as int;
    if f < k {
        assert(s[f] == '\n');
    }
}

/// A text with a single line feed, at its end, is one line.
pub proof fn lemma_one_terminated_line(s: Seq<char>)
    requires
        s.len() > 0,
        s.last() == '\n',
        forall|j: int| 0 <= j < s.len() - 1 ==> s[j] != '\n',
    ensures
        lines_of(s) == seq![strip_cr(s.drop_last())],
{
    lemma_first_break_is(s, s.len() - 1);
    assert(s.take(s.len() - 1) == s.drop_last());
    assert(s.skip(s.len() as int).len() == 0);
    assert(lines_of(s.skip(s.len() as int)) == Seq::<Seq<char>>::empty());
    assert(seq![strip_cr(s.drop_last())] + Seq::<Seq<char>>::empty() =~= seq![
        strip_cr(s.drop_last()),
    ]);
}

/// A text without a line feed that is not empty is one line, itself.
pub proof fn lemma_one_open_line(s: Seq<char>)
    requires
        s.len() > 0,
        forall|j: int| 0 <= j < s.len() ==> s[j] != '\n',
    ensures
        lines_of(s) == seq![s],
{
    lemma_first_break_is(s, s.len() as int);
}

/// Behind a text that is empty or ends in a line feed, a second text adds its
/// own lines and changes none.
pub proof fn lemma_lines_concat(a: Seq<char>, b: Seq<char>)
    requires
        a.len() == 0 || a.last() == '\n',
    ensures
        lines_of(a + b) == lines_of(a) + lines_of(b),
    decreases a.len(),
{
    if a.len() == 0 {
        assert(a + b =~= b);
        assert(lines_of(a) + lines_of(b) =~= lines_of(b));
    } else {
        lemma_first_break(a);
        let k = first_break(a) as int;
        if k >= a.len() {
            assert(a[a.len() - 1] != '\n');
        }
        let ab = a + b;
        assert forall|j: int| 0 <= j < k implies ab[j] != '\n' by {
            assert(ab[j] == a[j]);
        }
        assert(ab[k] == a[k]);
        lemma_first_break_is(ab, k);
        assert(ab.take(k) =~= a.take(k));
        let rest = a.skip(k + 1);
        assert(ab.skip(k + 1) =~= rest + b);
        if rest.len() > 0 {
            assert(rest.last() == a.last());
        }
        lemma_lines_concat(rest, b);
        assert(seq![strip_cr(a.take(k))] + (lines_of(rest) + lines_of(b)) =~= (seq![
            strip_cr(a.take(k)),
        ] + lines_of(rest)) + lines_of(b));
    }
}

/// Reading on from the start of a line up to its line feed at `i` adds that
/// line, without its terminator, to the lines read before.
pub proof fn lemma_line_closed(s: Seq<char>, start: int, i: int)
    requires
        0 <= start <= i < s.len(),
        s[i] == '\n',
        start == 0 || s[start - 1] == '\n',
        forall|j: int| start <= j < i ==> s[j] != '\n',
    ensures
        lines_of(s.take(i + 1)) == lines_of(s.take(start)).push(strip_cr(s.subrange(start, i))),
{
    let head = s.take(start);
    let piece = s.subrange(start, i + 1);
    assert(s.take(i + 1) =~= head + piece);
    if head.len() > 0 {
        assert(head.last() == s[start - 1]);
    }
    lemma_lines_concat(head, piece);
    assert forall|j: int| 0 <= j < piece.len() - 1 implies piece[j] != '\n' by {
        assert(piece[j] == s[start + j]);
    }
    lemma_one_terminated_line(piece);
    assert(piece.drop_last() =~= s.subrange(start, i));
    assert(lines_of(head) + seq![strip_cr(s.subrange(start, i))] =~= lines_of(head).push(
        strip_cr(s.subrange(start, i)),
    ));
}

/// What follows the last line feed of a text is its last line, unless
/// nothing follows it.
pub proof fn lemma_last_line(s: Seq<char>, start: int)
    requires
        0 <= start <= s.len(),
        start == 0 || s[start - 1] == '\n',
        forall|j: int| start <= j < s.len() ==> s[j] != '\n',
    ensures
        lines_of(s) == (if start == s.len() {
            lines_of(s.take(start))
        } else {
            lines_of(s.take(start)).push(s.skip(start))
        }),
{
    let head = s.take(start);
    let tail = s.skip(start);
    assert(s =~= head + tail);
    if head.len() > 0 {
        assert(head.last() == s[start - 1]);
    }
    lemma_lines_concat(head, tail);
    if tail.len() > 0 {
        assert forall|j: int| 0 <= j < tail.len() implies tail[j] != '\n' by {
            assert(tail[j] == s[start + j]);
        }
        lemma_one_open_line(tail);
        assert(lines_of(head) + seq![tail] =~= lines_of(head).push(tail));
    } else {
        assert(lines_of(head) + lines_of(tail) =~= lines_of(head));
    }
}

/// One more line adds its number to the lines with trailing whitespace
/// exactly when it has trailing whitespace itself.
pub proof fn lemma_blank_ended_push(lines: Seq<Seq<char>>, line: Seq<char>)
    ensures
        blank_ended(lines.push(line)) == (if has_trailing_blank(line) {
            blank_ended(lines).push(lines.len() + 1)
        } else {
            blank_ended(lines)
        }),
{
    assert(lines.push(line).drop_last() =~= lines);
    assert(lines.push(line).last() == line);
}

/// How the end of a text is classified.
#[derive(Debug, Clone, Copy, PartialEq, Eq, Structural)]
pub enum Ending {
    /// The text is empty, or ends in exactly one line feed.
    Proper,
    /// The text is not empty and its last character is no line feed.
    Missing,
    /// The text ends in two or more line feeds.
    Repeated,
}

/// The classification of a text's end. It looks at the last two
/// characters only.
pub open spec fn ending_of(s: Seq<char>) -> Ending {
    if s.len() == 0 {
        Ending::Proper
    } else if s.last() != '\n' {
        Ending::Missing
    } else if s.len() >= 2 && s[s.len() - 2] == '\n' {
        Ending::Repeated
    } else {
        Ending::Proper
    }
}

} // verus!
