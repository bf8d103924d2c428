//! The report for people: the files with issues and their issues, then a
//! summary.

use super::counts::{count, files_with_issues, issue_total};
use super::numbers::{decimal, push_decimal};
use super::traits::{
    emit_pieces, emit_plain, grown_by, kept_word, piece_views, pieces_writes, Color,
    ColoredOutput, Output, Piece, PieceView, ReporterWithOutput,
};
use crate::checker::{CheckResult, Issue, IssueView};
use vstd::prelude::*;
use vstd::string::StringExecFns;

verus! {

/// The line of an issue: with the line number where the issue names one.
pub open spec fn issue_line(issue: IssueView) -> Seq<char> {
    match issue.line {
        Some(line) => "  - Line "@ + decimal(line as nat) + ": "@ + issue.message,
        None => "  - "@ + issue.message,
    }
}

/// The head of a file's part: the cross and the path; in colour the cross
/// alone is painted red.
pub open spec fn file_head(colored: bool, path: Seq<char>) -> Seq<PieceView> {
    if colored {
        seq![
            PieceView::Painted("✗"@, Color::Red),
            PieceView::Text(" "@),
            PieceView::Text(path),
            PieceView::Line(""@),
        ]
    } else {
        seq![PieceView::Line("✗ "@ + path)]
    }
}

/// The lines of the first `count` issues, in order.
pub open spec fn issue_lines(issues: Seq<Issue>, count: int) -> Seq<PieceView>
    decreases count,
{
    if count <= 0 {
        Seq::empty()
    } else {
        issue_lines(issues, count - 1).push(PieceView::Line(issue_line(issues[count - 1]@)))
    }
}

/// The part of one result: nothing if it has no issues, else the head, a
/// line for each issue and an empty line.
pub open spec fn file_part(colored: bool, result: CheckResult) -> Seq<PieceView> {
    if result.issues@.len() == 0 {
        Seq::empty()
    } else {
        file_head(colored, result.file_path@) + issue_lines(
            result.issues@,
            result.issues@.len() as int,
        ) + seq![PieceView::Line(""@)]
    }
}

/// The parts of all results, in order.
pub open spec fn file_parts(colored: bool, results: Seq<CheckResult>) -> Seq<PieceView>
    decreases results.len(),
{
    if results.len() == 0 {
        Seq::empty()
    } else {
        file_parts(colored, results.drop_last()) + file_part(colored, results.last())
    }
}

/// The sentence that counts the issues and the files that have them.
pub open spec fn found_text(total: nat, files: nat) -> Seq<char> {
    " Found "@ + decimal(total) + " issues in "@ + decimal(files) + " files"@
}

/// The summary: that all files passed, or how many issues were found in
/// how many files; then the number of files checked.
pub open spec fn summary(colored: bool, results: Seq<CheckResult>) -> Seq<PieceView> {
    let checked = PieceView::Line("  Files checked: "@ + decimal(results.len()));
    if issue_total(results) == 0 {
        if colored {
            seq![
                PieceView::Painted("✓"@, Color::Green),
                PieceView::Line(" All files passed lint checks!"@),
                checked,
            ]
        } else {
            seq![PieceView::Line("✓ All files passed lint checks!"@), checked]
        }
    } else {
        let found = found_text(issue_total(results), files_with_issues(results));
        if colored {
            seq![
                PieceView::Painted("✗"@, Color::Red),
                PieceView::Text(found),
                PieceView::Line(""@),
                checked,
            ]
        } else {
            seq![PieceView::Line("✗"@ + found), checked]
        }
    }
}

/// The whole report.
pub open spec fn report(colored: bool, results: Seq<CheckResult>) -> Seq<PieceView> {
    file_parts(colored, results) + summary(colored, results)
}

/// Reports in words. With `use_color` the marks are painted where the
/// output can paint.
#[derive(Debug, Clone, Copy)]
pub struct HumanReporter {
    pub use_color: bool,
}

impl HumanReporter {
    /// A reporter that writes without colour.
    pub fn new() -> (reporter: Self)
        ensures
            !reporter.use_color,
    {
        HumanReporter { use_color: false }
    }

    /// A reporter that writes in colour.
    pub fn with_color() -> (reporter: Self)
        ensures
            reporter.use_color,
    {
        HumanReporter { use_color: true }
    }

    /// The pieces of the report, in colour or not: for each result with
    /// issues the head, the issues and an empty line; then the summary.
    pub fn pieces(results: &[CheckResult], colored: bool) -> (pieces: Vec<Piece>)
        ensures
            piece_views(pieces@) == report(colored, results@),
    {
        let mut pieces: Vec<Piece> = Vec::new();
        let mut i: usize = 0;
        assert(results@.take(0) =~= Seq::<CheckResult>::empty());
        assert(piece_views(pieces@) =~= Seq::<PieceView>::empty());
        while i < results.len()
            invariant
                0 <= i <= results@.len(),
                piece_views(pieces@) == file_parts(colored, results@.take(i as int)),
            decreases results@.len() - i,
        {
            proof {
                assert(results@.take(i as int + 1).drop_last() =~= results@.take(i as int));
                assert(results@.take(i as int + 1).last() == results@[i as int]);
            }
            let result = &results[i];
            let ghost before = piece_views(pieces@);
            if result.issues.len() > 0 {
                let path = result.file_path.as_str();
                if colored {
                    pieces.push(Piece::Painted("✗".to_owned(), Color::Red));
                    pieces.push(Piece::Text(" ".to_owned()));
                    pieces.push(Piece::Text(path.to_owned()));
                    pieces.push(Piece::Line("".to_owned()));
                } else {
                    let mut head = "✗ ".to_owned();
                    head.append(path);
                    pieces.push(Piece::Line(head));
                }
                assert(piece_views(pieces@) =~= before + file_head(colored, path@));
                let mut k: usize = 0;
                while k < result.issues.len()
                    invariant
                        0 <= k <= result.issues@.len(),
                        piece_views(pieces@) == before + file_head(colored, result.file_path@)
                            + issue_lines(result.issues@, k as int),
                    decreases result.issues@.len() - k,
                {
                    let issue = &result.issues[k];
                    let mut line = "  - ".to_owned();
                    match issue.line {
                        Some(number) => {
                            line.append("Line ");
                            push_decimal(&mut line, number as u128);
                            line.append(": ");
                        },
                        None => {},
                    }
                    line.append(issue.message.as_str());
                    proof {
                        reveal_strlit("  - ");
                        reveal_strlit("Line ");
                        reveal_strlit("  - Line ");
                        assert("  - "@ + "Line "@ =~= "  - Line "@);
                        assert(line@ =~= issue_line(issue@));
                        let grown = pieces@.push(Piece::Line(line));
                        assert(piece_views(grown) =~= piece_views(pieces@).push(
                            PieceView::Line(line@),
                        ));
                        assert((before + file_head(colored, result.file_path@) + issue_lines(
                            result.issues@,
                            k as int,
                        )).push(PieceView::Line(line@)) =~= before + file_head(
                            colored,
                            result.file_path@,
                        ) + issue_lines(result.issues@, k as int + 1));
                    }
                    pieces.push(Piece::Line(line));
                    k = k + 1;
                }
                let ghost filled = piece_views(pieces@);
                pieces.push(Piece::Line("".to_owned()));
                assert(piece_views(pieces@) =~= filled + seq![PieceView::Line(""@)]);
                assert(filled + seq![PieceView::Line(""@)] =~= before + file_part(
                    colored,
                    *result,
                ));
            } else {
                assert(before + file_part(colored, *result) =~= before);
            }
            i = i + 1;
        }
        assert(results@.take(results@.len() as int) =~= results@);
        let counts = count(results);
        let ghost parts = piece_views(pieces@);
        let mut checked = "  Files checked: ".to_owned();
        push_decimal(&mut checked, counts.files_checked as u128);
        if counts.total_issues == 0 {
            if colored {
                pieces.push(Piece::Painted("✓".to_owned(), Color::Green));
                pieces.push(Piece::Line(" All files passed lint checks!".to_owned()));
            } else {
                pieces.push(Piece::Line("✓ All files passed lint checks!".to_owned()));
            }
        } else {
            let mut found = " Found ".to_owned();
            push_decimal(&mut found, counts.total_issues);
            found.append(" issues in ");
            push_decimal(&mut found, counts.files_with_issues as u128);
            found.append(" files");
            assert(found@ =~= found_text(issue_total(results@), files_with_issues(results@)));
            if colored {
                pieces.push(Piece::Painted("✗".to_owned(), Color::Red));
                pieces.push(Piece::Text(found));
                pieces.push(Piece::Line("".to_owned()));
            } else {
                let mut line = "✗".to_owned();
                line.append(found.as_str());
                pieces.push(Piece::Line(line));
            }
        }
        pieces.push(Piece::Line(checked));
        assert(piece_views(pieces@) =~= parts + summary(colored, results@));
        pieces
    }

    /// Writes the report to an output that can paint. The marks are
    /// painted only if this reporter uses colour. The first error of the
    /// output ends the writing and is handed back. If all goes well, an
    /// output that keeps account has got exactly the pieces of the report.
    pub fn report_to_colored<O: ColoredOutput>(
        &self,
        results: &[CheckResult],
        output: &mut O,
    ) -> (done: Result<(), std::io::Error>)
        ensures
            grown_by(
                old(output).written(),
                final(output).written(),
                done is Ok,
                pieces_writes(report(self.use_color, results@), true),
            ),
            kept_word(old(output).reliable(), final(output).reliable(), done is Ok),
    {
        let pieces = HumanReporter::pieces(results, self.use_color);
        emit_pieces(&pieces, output)
    }
}

impl Default for HumanReporter {
    fn default() -> (reporter: Self)
        ensures
            !reporter.use_color,
    {
        HumanReporter { use_color: false }
    }
}

impl ReporterWithOutput for HumanReporter {
    /// Writes the report without colour, whatever `use_color` says: this
    /// output cannot paint. The first error of the output ends the writing
    /// and is handed back. If all goes well, an output that keeps account
    /// has got exactly the pieces of the uncoloured report.
    fn report_to(&self, results: &[CheckResult], output: &mut dyn Output) -> (done: Result<
        (),
        std::io::Error,
    >)
        ensures
            grown_by(
                old(output).written(),
                final(output).written(),
                done is Ok,
                pieces_writes(report(false, results@), false),
            ),
            kept_word(old(output).reliable(), final(output).reliable(), done is Ok),
    {
        let pieces = HumanReporter::pieces(results, false);
        emit_plain(&pieces, output)
    }
}

} // verus!
