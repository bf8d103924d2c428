//! Where a report goes, and what a report is made of.

use crate::checker::CheckResult;
use crate::text::texts;
use vstd::prelude::*;

verus! {

/// The error of `std::io`. The library hands it on and never looks inside.
#[verifier::external_type_specification]
#[verifier::external_body]
pub struct ExIoError(std::io::Error);

/// The colours that a report may use.
#[derive(Debug, Clone, Copy, PartialEq, Eq, Structural)]
pub enum Color {
    Red,
    Green,
    Yellow,
    Blue,
    Magenta,
    Cyan,
    White,
    Black,
}

/// One write to an output, as a mathematical value: the text, and the
/// colour if it was written in one.
pub struct Written {
    pub text: Seq<char>,
    pub color: Option<Color>,
}

/// A write of text without colour.
pub open spec fn plain(text: Seq<char>) -> Written {
    Written { text, color: None }
}

/// A write of text in a colour.
pub open spec fn painted(text: Seq<char>, color: Color) -> Written {
    Written { text, color: Some(color) }
}

/// The write that ends a line.
pub open spec fn line_end() -> Written {
    plain("\n"@)
}

/// How the account of an output moves over a call that is to write `more`.
/// An output that keeps account of its writes goes on keeping it, and if
/// the call succeeded, the account has grown by exactly `more`. Nothing is
/// said of an output that keeps no account.
pub open spec fn grown_by(
    before: Option<Seq<Written>>,
    after: Option<Seq<Written>>,
    done: bool,
    more: Seq<Written>,
) -> bool {
    before is Some ==> after is Some && (done ==> after->0 == before->0 + more)
}

/// How the promise of an output never to fail moves over a call: an output
/// that gave it keeps it, and the call succeeded. Nothing is said of an
/// output that gave none.
pub open spec fn kept_word(before: bool, after: bool, done: bool) -> bool {
    before ==> after && done
}

/// Somewhere to write text to: the standard output, a file, a buffer.
///
/// An output may keep account of what was written to it (`written`), and
/// it may promise never to fail (`reliable`). The contracts of the methods
/// speak of that account and that promise only; of an output that keeps
/// no account and promises nothing, which is what an implementor gets who
/// says nothing, they claim nothing.
pub trait Output {
    /// The writes made so far, in order, if the output keeps account of them.
    open spec fn written(&self) -> Option<Seq<Written>> {
        None
    }

    /// Whether the output promises never to fail. An output that writes
    /// to a disk or a terminal cannot; one that writes to memory can.
    open spec fn reliable(&self) -> bool {
        false
    }

    /// Writes the text.
    fn write(&mut self, content: &str) -> (done: Result<(), std::io::Error>)
        ensures
            grown_by(
                old(self).written(),
                final(self).written(),
                done is Ok,
                seq![plain(content@)],
            ),
            kept_word(old(self).reliable(), final(self).reliable(), done is Ok),
    ;

    /// Writes the text and ends the line: two writes, the text and a line
    /// feed. If the text cannot be written, the line feed is not tried.
    fn write_line(&mut self, content: &str) -> (done: Result<(), std::io::Error>)
        ensures
            grown_by(
                old(self).written(),
                final(self).written(),
                done is Ok,
                seq![plain(content@), line_end()],
            ),
            kept_word(old(self).reliable(), final(self).reliable(), done is Ok),
    {
        self.write(content)?;
        let ended = self.write("\n");
        proof {
            if old(self).written() is Some && ended is Ok {
                assert(old(self).written()->0 + seq![plain(content@)] + seq![plain("\n"@)]
                    =~= old(self).written()->0 + seq![plain(content@), line_end()]);
            }
        }
        ended
    }

    /// Sends on what was written and is still held back. It writes nothing.
    fn flush(&mut self) -> (done: Result<(), std::io::Error>)
        ensures
            old(self).written() is Some ==> final(self).written() == old(self).written(),
            kept_word(old(self).reliable(), final(self).reliable(), done is Ok),
    ;
}

/// An output that can write in colour.
pub trait ColoredOutput: Output {
    /// Writes the text in the colour.
    fn write_colored(&mut self, content: &str, color: Color) -> (done: Result<
        (),
        std::io::Error,
    >)
        ensures
            grown_by(
                old(self).written(),
                final(self).written(),
                done is Ok,
                seq![painted(content@, color)],
            ),
            kept_word(old(self).reliable(), final(self).reliable(), done is Ok),
    ;

    /// Writes the text in the colour and ends the line: two writes, the
    /// text in the colour and a line feed without. If the text cannot be
    /// written, the line feed is not tried.
    fn write_line_colored(&mut self, content: &str, color: Color) -> (done: Result<
        (),
        std::io::Error,
    >)
        ensures
            grown_by(
                old(self).written(),
                final(self).written(),
                done is Ok,
                seq![painted(content@, color), line_end()],
            ),
            kept_word(old(self).reliable(), final(self).reliable(), done is Ok),
    {
        self.write_colored(content, color)?;
        let ended = self.write("\n");
        proof {
            if old(self).written() is Some && ended is Ok {
                assert(old(self).written()->0 + seq![painted(content@, color)] + seq![
                    plain("\n"@),
                ] =~= old(self).written()->0 + seq![painted(content@, color), line_end()]);
            }
        }
        ended
    }
}

/// A reporter that writes to the output it is given.
pub trait ReporterWithOutput {
    /// Writes the report of the results to the output.
    fn report_to(&self, results: &[CheckResult], output: &mut dyn Output) -> Result<
        (),
        std::io::Error,
    >;
}

/// A reporter that writes to the standard output.
pub trait Reporter {
    /// Writes the report of the results.
    fn report(&self, results: &[CheckResult]);
}

/// One piece of a report.
#[derive(Debug, Clone, PartialEq)]
pub enum Piece {
    /// A whole line, without its line feed.
    Line(String),
    /// Text within a line.
    Text(String),
    /// Text within a line, in a colour.
    Painted(String, Color),
}

/// A piece as a mathematical value.
pub enum PieceView {
    Line(Seq<char>),
    Text(Seq<char>),
    Painted(Seq<char>, Color),
}

impl View for Piece {
    type V = PieceView;

    open spec fn view(&self) -> PieceView {
        match self {
            Piece::Line(text) => PieceView::Line(text@),
            Piece::Text(text) => PieceView::Text(text@),
            Piece::Painted(text, color) => PieceView::Painted(text@, *color),
        }
    }
}

/// The views of a list of pieces, in the same order.
pub open spec fn piece_views(pieces: Seq<Piece>) -> Seq<PieceView> {
    Seq::new(pieces.len(), |i: int| pieces[i]@)
}

/// The writes that put each text on a line of its own: for each text, the
/// text and a line feed.
pub open spec fn line_writes(lines: Seq<Seq<char>>) -> Seq<Written>
    decreases lines.len(),
{
    if lines.len() == 0 {
        Seq::empty()
    } else {
        line_writes(lines.drop_last()) + seq![plain(lines.last()), line_end()]
    }
}

/// The writes that put out one piece: a line is its text and a line feed,
/// text is one write, and painted text is one write, in its colour where
/// `paint` is set and without colour where not.
pub open spec fn piece_writes(piece: PieceView, paint: bool) -> Seq<Written> {
    match piece {
        PieceView::Line(text) => seq![plain(text), line_end()],
        PieceView::Text(text) => seq![plain(text)],
        PieceView::Painted(text, color) => if paint {
            seq![painted(text, color)]
        } else {
            seq![plain(text)]
        },
    }
}

/// The writes that put out the pieces, in order.
pub open spec fn pieces_writes(pieces: Seq<PieceView>, paint: bool) -> Seq<Written>
    decreases pieces.len(),
{
    if pieces.len() == 0 {
        Seq::empty()
    } else {
        pieces_writes(pieces.drop_last(), paint) + piece_writes(pieces.last(), paint)
    }
}

/// Writes each text as a line of its own, then flushes. The first error of
/// the output ends the writing and is handed back. If all goes well, an
/// output that keeps account has got exactly the writes of these lines.
pub(crate) fn emit_lines<O: Output + ?Sized>(lines: &Vec<String>, output: &mut O) -> (done: Result<
    (),
    std::io::Error,
>)
    ensures
        grown_by(
            old(output).written(),
            final(output).written(),
            done is Ok,
            line_writes(texts(lines@)),
        ),
        kept_word(old(output).reliable(), final(output).reliable(), done is Ok),
{
    let ghost before = output.written();
    let ghost all = texts(lines@);
    let mut i: usize = 0;
    proof {
        assert(all.take(0) =~= Seq::<Seq<char>>::empty());
        if before is Some {
            assert(before->0 + line_writes(all.take(0)) =~= before->0);
        }
    }
    while i < lines.len()
        invariant
            0 <= i <= lines@.len(),
            all == texts(lines@),
            before == old(output).written(),
            old(output).reliable() ==> output.reliable(),
            before is Some ==> output.written() is Some && output.written()->0 == before->0
                + line_writes(all.take(i as int)),
        decreases lines@.len() - i,
    {
        let ghost so_far = output.written();
        let step = output.write_line(lines[i].as_str());
        proof {
            assert(all.take(i as int + 1).drop_last() =~= all.take(i as int));
            assert(all.take(i as int + 1).last() == lines@[i as int]@);
            if before is Some && step is Ok {
                assert(so_far->0 + seq![plain(lines@[i as int]@), line_end()] =~= before->0
                    + line_writes(all.take(i as int + 1)));
            }
        }
        step?;
        i = i + 1;
    }
    assert(all.take(lines@.len() as int) =~= all);
    output.flush()
}

/// Writes the pieces in order, then flushes: a line with its line feed,
/// text as it is, painted text in its colour. The first error of the output
/// ends the writing and is handed back. If all goes well, an output that
/// keeps account has got exactly the writes of these pieces.
pub(crate) fn emit_pieces<O: ColoredOutput>(pieces: &Vec<Piece>, output: &mut O) -> (done: Result<
    (),
    std::io::Error,
>)
    ensures
        grown_by(
            old(output).written(),
            final(output).written(),
            done is Ok,
            pieces_writes(piece_views(pieces@), true),
        ),
        kept_word(old(output).reliable(), final(output).reliable(), done is Ok),
{
    let ghost before = output.written();
    let ghost all = piece_views(pieces@);
    let mut i: usize = 0;
    proof {
        assert(all.take(0) =~= Seq::<PieceView>::empty());
        if before is Some {
            assert(before->0 + pieces_writes(all.take(0), true) =~= before->0);
        }
    }
    while i < pieces.len()
        invariant
            0 <= i <= pieces@.len(),
            all == piece_views(pieces@),
            before == old(output).written(),
            old(output).reliable() ==> output.reliable(),
            before is Some ==> output.written() is Some && output.written()->0 == before->0
                + pieces_writes(all.take(i as int), true),
        decreases pieces@.len() - i,
    {
        let ghost so_far = output.written();
        let step = match &pieces[i] {
            Piece::Line(text) => output.write_line(text.as_str()),
            Piece::Text(text) => output.write(text.as_str()),
            Piece::Painted(text, color) => output.write_colored(text.as_str(), *color),
        };
        proof {
            assert(all.take(i as int + 1).drop_last() =~= all.take(i as int));
            assert(all.take(i as int + 1).last() == pieces@[i as int]@);
            if before is Some && step is Ok {
                assert(so_far->0 + piece_writes(pieces@[i as int]@, true) =~= before->0
                    + pieces_writes(all.take(i as int + 1), true));
            }
        }
        step?;
        i = i + 1;
    }
    assert(all.take(pieces@.len() as int) =~= all);
    output.flush()
}

/// Writes the pieces in order without colour, then flushes: painted text
/// is written as plain text. The first error of the output ends the
/// writing and is handed back. If all goes well, an output that keeps
/// account has got exactly the writes of these pieces, unpainted.
pub(crate) fn emit_plain<O: Output + ?Sized>(pieces: &Vec<Piece>, output: &mut O) -> (done: Result<
    (),
    std::io::Error,
>)
    ensures
        grown_by(
            old(output).written(),
            final(output).written(),
            done is Ok,
            pieces_writes(piece_views(pieces@), false),
        ),
        kept_word(old(output).reliable(), final(output).reliable(), done is Ok),
{
    let ghost before = output.written();
    let ghost all = piece_views(pieces@);
    let mut i: usize = 0;
    proof {
        assert(all.take(0) =~= Seq::<PieceView>::empty());
        if before is Some {
            assert(before->0 + pieces_writes(all.take(0), false) =~= before->0);
        }
    }
    while i < pieces.len()
        invariant
            0 <= i <= pieces@.len(),
            all == piece_views(pieces@),
            before == old(output).written(),
            old(output).reliable() ==> output.reliable(),
            before is Some ==> output.written() is Some && output.written()->0 == before->0
                + pieces_writes(all.take(i as int), false),
        decreases pieces@.len() - i,
    {
        let ghost so_far = output.written();
        let step = match &pieces[i] {
            Piece::Line(text) => output.write_line(text.as_str()),
            Piece::Text(text) => output.write(text.as_str()),
            Piece::Painted(text, _) => output.write(text.as_str()),
        };
        proof {
            assert(all.take(i as int + 1).drop_last() =~= all.take(i as int));
            assert(all.take(i as int + 1).last() == pieces@[i as int]@);
            if before is Some && step is Ok {
                assert(so_far->0 + piece_writes(pieces@[i as int]@, false) =~= before->0
                    + pieces_writes(all.take(i as int + 1), false));
            }
        }
        step?;
        i = i + 1;
    }
    assert(all.take(pieces@.len() as int) =~= all);
    output.flush()
}

} // verus!
