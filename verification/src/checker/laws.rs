//! What holds of the rules for every text: stated over the same functions as
//! the contracts of the checker, and proved.

use super::rules::{
    blank_ended, ending_of, has_trailing_blank, lemma_blank_ended_push, lemma_lines_concat,
    lemma_one_terminated_line, lines_of, strip_cr, Ending,
};
use super::file_checker::{
    foreseen_in_memory, foreseen_streaming, lemma_leading_lines, lines_read,
};
use super::io_trait::{last_bytes, steps_of, FileReader, LineStep};
use super::stream::{ending_of_bytes, stream_issues, trailing_part_of_lines, LINE_FEED, TAIL_LEN};
use super::{
    content_issues, ending_issue, ending_part, trailing_part, IssueType, IssueView,
};
use crate::config::CheckConfig;
use vstd::prelude::*;
use vstd::utf8::{
    char_is_scalar, encode_scalar, encode_utf8, has_width_1_encoding, last_continuation_byte,
    leading_byte_width_1, leading_byte_width_2, leading_byte_width_3, leading_byte_width_4,
    second_last_continuation_byte, third_last_continuation_byte,
};

verus! {

/// Empty content has no issues, whichever rules are on.
pub proof fn law_empty_content_is_clean(checks: CheckConfig)
    ensures
        content_issues(checks, Seq::<char>::empty()) == Seq::<IssueView>::empty(),
{
    let none = Seq::<char>::empty();
    assert(lines_of(none) == Seq::<Seq<char>>::empty());
    assert(content_issues(checks, none) =~= Seq::<IssueView>::empty());
}

/// A text that does not end in a line feed has, once a single line feed is
/// appended, neither a missing nor a repeated final newline.
pub proof fn law_appended_newline_is_proper(text: Seq<char>)
    requires
        text.len() == 0 || text.last() != '\n',
    ensures
        ending_of(text.push('\n')) == Ending::Proper,
        ending_issue(ending_of(text.push('\n'))) is None,
{
    let fixed = text.push('\n');
    assert(fixed.last() == '\n');
    if fixed.len() >= 2 {
        assert(fixed[fixed.len() - 2] == text.last());
    }
}

/// Line numbers moved up by `by`.
pub open spec fn shifted(numbers: Seq<nat>, by: nat) -> Seq<nat> {
    Seq::new(numbers.len(), |i: int| numbers[i] + by)
}

/// The lines with trailing whitespace among `first` followed by `second` are
/// those of `first`, and those of `second` counted on from the end of `first`.
pub proof fn lemma_blank_ended_concat(first: Seq<Seq<char>>, second: Seq<Seq<char>>)
    ensures
        blank_ended(first + second) == blank_ended(first) + shifted(
            blank_ended(second),
            first.len(),
        ),
    decreases second.len(),
{
    if second.len() == 0 {
        assert(first + second =~= first);
        assert(blank_ended(first) + shifted(blank_ended(second), first.len()) =~= blank_ended(
            first,
        ));
    } else {
        let init = second.drop_last();
        let line = second.last();
        assert(first + second =~= (first + init).push(line));
        assert(second =~= init.push(line));
        lemma_blank_ended_concat(first, init);
        lemma_blank_ended_push(first + init, line);
        lemma_blank_ended_push(init, line);
        if has_trailing_blank(line) {
            assert((blank_ended(first) + shifted(blank_ended(init), first.len())).push(
                (first + init).len() + 1,
            ) =~= blank_ended(first) + shifted(
                blank_ended(init).push(init.len() + 1),
                first.len(),
            ));
        }
    }
}

/// A clean line put in at the start of a line moves the trailing-space
/// issues behind it down by exactly one line and leaves those before it as
/// they were. `before` is the text up to the place, `after` the text from it;
/// `line` is the new line without its line feed.
pub proof fn law_clean_line_shifts_later_issues(
    before: Seq<char>,
    line: Seq<char>,
    after: Seq<char>,
)
    requires
        before.len() == 0 || before.last() == '\n',
        forall|j: int| 0 <= j < line.len() ==> line[j] != '\n',
        !has_trailing_blank(strip_cr(line)),
    ensures
        blank_ended(lines_of(before + after)) == blank_ended(lines_of(before)) + shifted(
            blank_ended(lines_of(after)),
            lines_of(before).len(),
        ),
        blank_ended(lines_of(before + line.push('\n') + after)) == blank_ended(lines_of(before))
            + shifted(blank_ended(lines_of(after)), lines_of(before).len() + 1),
{
    let head = lines_of(before);
    let rest = lines_of(after);
    lemma_lines_concat(before, after);
    lemma_blank_ended_concat(head, rest);

    let row = line.push('\n');
    assert(row.drop_last() =~= line);
    lemma_one_terminated_line(row);
    lemma_lines_concat(before, row);
    lemma_lines_concat(before + row, after);
    let clean = strip_cr(line);
    assert(lines_of(before + row) =~= head.push(clean));
    lemma_blank_ended_push(head, clean);
    lemma_blank_ended_concat(head.push(clean), rest);
}

/// The line numbers of the lines with trailing whitespace grow strictly,
/// start at 1 or above and end at the number of lines or below.
pub proof fn lemma_blank_ended_ascends(lines: Seq<Seq<char>>)
    ensures
        blank_ended(lines).len() <= lines.len(),
        forall|i: int|
            0 <= i < blank_ended(lines).len() ==> 1 <= #[trigger] blank_ended(lines)[i]
                <= lines.len(),
        forall|i: int, j: int|
            0 <= i < j < blank_ended(lines).len() ==> blank_ended(lines)[i] < blank_ended(
                lines,
            )[j],
    decreases lines.len(),
{
    if lines.len() > 0 {
        lemma_blank_ended_ascends(lines.drop_last());
    }
}

/// An issue of the trailing-whitespace rule: it names its line.
pub open spec fn is_trailing(issue: IssueView) -> bool {
    issue.issue_type == IssueType::TrailingSpace && issue.line is Some
}

/// An issue of the newline-ending rule: it names no line.
pub open spec fn is_ending(issue: IssueView) -> bool {
    issue.issue_type != IssueType::TrailingSpace && issue.line is None
}

/// The order that the issues of one file keep: trailing-space issues by
/// strictly ascending line, then at most one newline issue, last.
pub open spec fn orderly(issues: Seq<IssueView>) -> bool {
    &&& forall|i: int| 0 <= i < issues.len() - 1 ==> is_trailing(#[trigger] issues[i])
    &&& issues.len() > 0 ==> is_trailing(issues.last()) || is_ending(issues.last())
    &&& forall|i: int, j: int|
        0 <= i < j < issues.len() && is_trailing(issues[j]) ==> issues[i].line->0
            < issues[j].line->0
}

/// The issues of lines and an ending keep the order of `orderly`.
pub proof fn lemma_parts_orderly(
    trailing_on: bool,
    lines: Seq<Seq<char>>,
    ending_on: bool,
    e: Ending,
)
    requires
        lines.len() <= usize::MAX,
    ensures
        orderly(trailing_part_of_lines(trailing_on, lines) + ending_part(ending_on, e)),
{
    let numbers = blank_ended(lines);
    lemma_blank_ended_ascends(lines);
    let first = trailing_part_of_lines(trailing_on, lines);
    let second = ending_part(ending_on, e);
    let all = first + second;
    assert forall|i: int| 0 <= i < first.len() implies is_trailing(#[trigger] all[i]) && all[i].line
        == Some(numbers[i] as usize) by {
        assert(all[i] == first[i]);
    }
    if second.len() > 0 {
        assert(all.last() == second[0]);
        assert(is_ending(all.last()));
    }
}

/// The number of lines of a text is at most its length.
pub proof fn lemma_line_count(text: Seq<char>)
    ensures
        lines_of(text).len() <= text.len(),
        text.len() > 0 ==> lines_of(text).len() > 0,
    decreases text.len(),
{
    if text.len() > 0 {
        super::rules::lemma_first_break(text);
        let k = super::rules::first_break(text) as int;
        if k < text.len() {
            lemma_line_count(text.skip(k + 1));
        }
    }
}

/// The issues of a text keep their order: trailing-space issues by strictly
/// ascending line, then at most one newline issue, last.
pub proof fn law_content_issues_orderly(checks: CheckConfig, text: Seq<char>)
    requires
        text.len() <= usize::MAX,
    ensures
        orderly(content_issues(checks, text)),
{
    lemma_line_count(text);
    lemma_parts_orderly(
        checks.trailing_spaces,
        lines_of(text),
        checks.newline_ending,
        ending_of(text),
    );
}

/// The issues of a file read line by line keep the same order.
pub proof fn law_stream_issues_orderly(
    checks: CheckConfig,
    lines: Seq<Seq<char>>,
    tail: Option<Seq<u8>>,
)
    requires
        lines.len() <= usize::MAX,
    ensures
        orderly(stream_issues(checks, lines, tail)),
{
    lemma_parts_orderly(
        checks.trailing_spaces,
        lines,
        checks.newline_ending && lines.len() > 0 && tail is Some,
        ending_of_bytes(tail->0),
    );
}

/// The bytes of a file that the second read of the streaming mode sees: the
/// last two, or all of them if there are fewer.
pub open spec fn tail_of(bytes: Seq<u8>) -> Seq<u8> {
    if bytes.len() <= TAIL_LEN {
        bytes
    } else {
        bytes.skip(bytes.len() - TAIL_LEN)
    }
}

/// In UTF-8 a line feed is the single byte 10, and the encoding of no other
/// character ends in that byte.
pub proof fn lemma_feed_encoding(c: char)
    ensures
        encode_scalar(c as u32).len() >= 1,
        c == '\n' ==> encode_scalar(c as u32) == seq![LINE_FEED],
        c != '\n' ==> encode_scalar(c as u32).last() != LINE_FEED,
{
    let s = c as u32;
    char_is_scalar(c);
    let bytes = encode_scalar(s);
    if has_width_1_encoding(s) {
        assert(leading_byte_width_1(s) == 10u8 <==> s == 10u32) by (bit_vector)
            requires
                s <= 0x7Fu32,
        ;
        if c == '\n' {
            assert(bytes =~= seq![LINE_FEED]);
        }
    } else {
        assert(c != '\n');
        assert(leading_byte_width_2(s) != 10u8) by (bit_vector);
        assert(leading_byte_width_3(s) != 10u8) by (bit_vector);
        assert(leading_byte_width_4(s) != 10u8) by (bit_vector);
        assert(last_continuation_byte(s) != 10u8) by (bit_vector);
        assert(second_last_continuation_byte(s) != 10u8) by (bit_vector);
        assert(third_last_continuation_byte(s) != 10u8) by (bit_vector);
    }
}

/// The encoding of two texts in a row is the encoding of the first followed
/// by that of the second.
pub proof fn lemma_encode_concat(a: Seq<char>, b: Seq<char>)
    ensures
        encode_utf8(a + b) == encode_utf8(a) + encode_utf8(b),
    decreases a.len(),
{
    if a.len() == 0 {
        assert(a + b =~= b);
        assert(encode_utf8(a) + encode_utf8(b) =~= encode_utf8(b));
    } else {
        assert((a + b).drop_first() =~= a.drop_first() + b);
        lemma_encode_concat(a.drop_first(), b);
        assert(encode_scalar(a[0] as u32) + (encode_utf8(a.drop_first()) + encode_utf8(b))
            =~= (encode_scalar(a[0] as u32) + encode_utf8(a.drop_first())) + encode_utf8(b));
    }
}

/// The encoding of a text ends in the encoding of its last character.
pub proof fn lemma_encode_last(text: Seq<char>)
    requires
        text.len() > 0,
    ensures
        encode_utf8(text) == encode_utf8(text.drop_last()) + encode_scalar(text.last() as u32),
{
    let last = seq![text.last()];
    assert(text =~= text.drop_last() + last);
    lemma_encode_concat(text.drop_last(), last);
    let c = text.last();
    assert(last[0] == c);
    assert(last.drop_first() =~= Seq::<char>::empty());
    assert(encode_utf8(last.drop_first()) =~= Seq::<u8>::empty());
    assert(encode_utf8(last) == encode_scalar(last[0] as u32) + encode_utf8(last.drop_first()));
    assert(encode_utf8(last) =~= encode_scalar(c as u32));
}

/// The last bytes of a text's encoding classify its end as the text's last
/// characters do.
pub proof fn lemma_tail_ending(text: Seq<char>)
    ensures
        ending_of_bytes(tail_of(encode_utf8(text))) == ending_of(text),
        encode_utf8(text).len() == 0 <==> text.len() == 0,
{
    let bytes = encode_utf8(text);
    if text.len() > 0 {
        let init = text.drop_last();
        let e = encode_scalar(text.last() as u32);
        lemma_encode_last(text);
        lemma_feed_encoding(text.last());
        assert(bytes.last() == e.last());
        let tail = tail_of(bytes);
        assert(tail.last() == bytes.last());
        if text.last() == '\n' {
            let head = encode_utf8(init);
            if init.len() > 0 {
                lemma_encode_last(init);
                lemma_feed_encoding(init.last());
                let f = encode_scalar(init.last() as u32);
                assert(head.last() == f.last());
                assert(bytes[bytes.len() - 2] == head.last());
                assert(tail[tail.len() - 2] == bytes[bytes.len() - 2]);
                assert(init.last() == text[text.len() - 2]);
            } else {
                assert(head.len() == 0);
                assert(bytes.len() == 1);
            }
        }
    }
}

/// Both ways of reading agree. A file whose content is `text`, read line by
/// line with its last bytes read a second time, gets the same trailing-space
/// lines and the same classification of its end as the text read as a whole.
pub proof fn law_mode_equivalence(checks: CheckConfig, text: Seq<char>)
    ensures
        stream_issues(checks, lines_of(text), Some(tail_of(encode_utf8(text)))) == content_issues(
            checks,
            text,
        ),
{
    lemma_tail_ending(text);
    lemma_line_count(text);
    if text.len() == 0 {
        assert(lines_of(text) == Seq::<Seq<char>>::empty());
    }
    assert(trailing_part_of_lines(checks.trailing_spaces, lines_of(text)) == trailing_part(
        checks.trailing_spaces,
        text,
    ));
}

/// A reader that serves one content in both ways has its file checked
/// alike in both ways. If the text it hands out as a whole is also what
/// it hands out line by line, without a failed read, and its answer to the
/// read of the end holds the last bytes of that text, then reading line by
/// line gives the very result of reading as a whole.
pub proof fn law_reader_is_checked_alike_both_ways<R: FileReader>(
    reader: R,
    checks: CheckConfig,
    path: Seq<char>,
    text: Seq<char>,
)
    requires
        text.len() <= usize::MAX,
        reader.text_answer(path) == Some(Ok::<Seq<char>, Seq<char>>(text)),
        reader.lines_answer(path) == Some(
            Ok::<Seq<LineStep>, Seq<char>>(steps_of(lines_of(text), false)),
        ),
        reader.tail_answer(path, TAIL_LEN as nat) == Some(
            Ok::<Seq<u8>, Seq<char>>(last_bytes(encode_utf8(text), TAIL_LEN as nat)),
        ),
    ensures
        foreseen_streaming(reader, checks, path) == foreseen_in_memory(reader, checks, path),
{
    let lines = lines_of(text);
    let steps = steps_of(lines, false);
    lemma_leading_lines(steps, lines);
    lemma_line_count(text);
    assert(lines_read(steps) == lines);
    law_mode_equivalence(checks, text);
    assert(tail_of(encode_utf8(text)) == last_bytes(encode_utf8(text), TAIL_LEN as nat));
}

} // verus!
