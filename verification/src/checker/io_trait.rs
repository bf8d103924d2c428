//! What the checker needs from a file system. The checker is generic in it,
//! so that a file system held in memory can stand in for the real one.

use vstd::prelude::*;

verus! {

/// What is known of a path before it is read.
#[derive(Debug, Clone)]
pub struct FileMetadata {
    /// The length in bytes.
    pub len: u64,
    pub is_file: bool,
    pub is_dir: bool,
}

/// One step of reading a file line by line.
#[derive(Debug, Clone)]
pub enum LineEvent {
    /// The next line, without its terminator.
    Line(String),
    /// The next line could not be read or decoded.
    Failed,
    /// The file has no further line.
    End,
}

/// One step that a line source is going to make, as a mathematical value:
/// a line, or a failure to read one.
pub enum LineStep {
    Line(Seq<char>),
    Failed,
}

/// The steps of a source that hands out the lines, and then fails if
/// `failing` is set.
pub open spec fn steps_of(lines: Seq<Seq<char>>, failing: bool) -> Seq<LineStep> {
    let read = Seq::new(lines.len(), |i: int| LineStep::Line(lines[i]));
    if failing {
        read.push(LineStep::Failed)
    } else {
        read
    }
}

/// Whether the event is the step.
pub open spec fn shows_step(event: LineEvent, step: LineStep) -> bool {
    match (event, step) {
        (LineEvent::Line(line), LineStep::Line(text)) => line@ == text,
        (LineEvent::Failed, LineStep::Failed) => true,
        _ => false,
    }
}

/// How a source that knows what is coming moves over one read: it goes on
/// knowing; if nothing was coming the event is the end and nothing
/// changes; else the event is the first step and the rest is coming.
/// Nothing is said of a source that does not know.
pub open spec fn stepped_on(
    before: Option<Seq<LineStep>>,
    after: Option<Seq<LineStep>>,
    event: LineEvent,
) -> bool {
    before is Some ==> after is Some && (if before->0.len() == 0 {
        event is End && after == before
    } else {
        shows_step(event, before->0[0]) && after->0 == before->0.drop_first()
    })
}

/// A file opened for reading line by line. A line ends at a line feed, or at
/// a carriage return directly followed by one.
///
/// A source that holds its lines itself knows what is coming (`coming`);
/// the contract of `next_line` speaks of such a source only.
pub trait LineSource {
    /// The steps that the source is going to make, in order, if that is
    /// known beforehand. After them comes the end.
    open spec fn coming(&self) -> Option<Seq<LineStep>> {
        None
    }

    /// Reads the next line.
    fn next_line(&mut self) -> (event: LineEvent)
        ensures
            stepped_on(old(self).coming(), final(self).coming(), event),
    ;
}

/// The last `count` bytes of a file, or all of them if it is shorter.
pub open spec fn last_bytes(bytes: Seq<u8>, count: nat) -> Seq<u8> {
    if bytes.len() <= count {
        bytes
    } else {
        bytes.skip(bytes.len() - count)
    }
}

/// Whether the answer to a read of bytes is the one that was known
/// beforehand: the same bytes, or the same message of an error.
pub open spec fn is_known_answer(
    answer: Result<Vec<u8>, String>,
    known: Result<Seq<u8>, Seq<char>>,
) -> bool {
    match (answer, known) {
        (Ok(bytes), Ok(expected)) => bytes@ == expected,
        (Err(message), Err(expected)) => message@ == expected,
        _ => false,
    }
}

/// Whether the answer to a read of text is the one that was known
/// beforehand: the same text, or the same message of an error.
pub open spec fn is_known_text(
    answer: Result<String, String>,
    known: Result<Seq<char>, Seq<char>>,
) -> bool {
    match (answer, known) {
        (Ok(text), Ok(expected)) => text@ == expected,
        (Err(message), Err(expected)) => message@ == expected,
        _ => false,
    }
}

/// Whether the answer to a question for metadata is the one that was known
/// beforehand.
pub open spec fn is_known_metadata(
    answer: Result<FileMetadata, String>,
    known: Result<FileMetadata, Seq<char>>,
) -> bool {
    match (answer, known) {
        (Ok(metadata), Ok(expected)) => metadata == expected,
        (Err(message), Err(expected)) => message@ == expected,
        _ => false,
    }
}

/// Whether the answer to opening a file is the one that was known
/// beforehand: a source that is going to make the same steps, or the same
/// message of an error.
pub open spec fn is_known_source<L: LineSource>(
    answer: Result<L, String>,
    known: Result<Seq<LineStep>, Seq<char>>,
) -> bool {
    match (answer, known) {
        (Ok(source), Ok(expected)) => source.coming() == Some(expected),
        (Err(message), Err(expected)) => message@ == expected,
        _ => false,
    }
}

/// Access to files. An error is handed back as its message.
///
/// A reader that holds its files itself knows beforehand what it will
/// answer (`metadata_answer`, `text_answer`, `lines_answer`,
/// `tail_answer`). The contracts of the methods speak of such a reader
/// only; of a reader that reads a disk, which may change between two
/// reads, and of any implementor who says nothing, they claim nothing.
pub trait FileReader {
    /// The line reader that `open` gives.
    type Lines: LineSource;

    /// What the reader answers when asked for the metadata of the file at
    /// `path`, if that is known beforehand.
    open spec fn metadata_answer(&self, path: Seq<char>) -> Option<
        Result<FileMetadata, Seq<char>>,
    > {
        None
    }

    /// What the reader answers when asked for the whole text of the file
    /// at `path`, if that is known beforehand.
    open spec fn text_answer(&self, path: Seq<char>) -> Option<Result<Seq<char>, Seq<char>>> {
        None
    }

    /// What the reader answers when asked to open the file at `path`: the
    /// steps that the source is going to make, or the message of an error,
    /// if that is known beforehand.
    open spec fn lines_answer(&self, path: Seq<char>) -> Option<
        Result<Seq<LineStep>, Seq<char>>,
    > {
        None
    }

    /// What the reader answers when asked for the last `count` bytes of
    /// the file at `path`, if that is known beforehand.
    open spec fn tail_answer(&self, path: Seq<char>, count: nat) -> Option<
        Result<Seq<u8>, Seq<char>>,
    > {
        None
    }

    /// Reads the whole file as text.
    fn read_to_string(&self, path: &str) -> (answer: Result<String, String>)
        ensures
            self.text_answer(path@) is Some ==> is_known_text(answer, self.text_answer(path@)->0),
    ;

    /// Opens the file for reading line by line.
    fn open(&self, path: &str) -> (answer: Result<Self::Lines, String>)
        ensures
            self.lines_answer(path@) is Some ==> is_known_source(
                answer,
                self.lines_answer(path@)->0,
            ),
    ;

    /// The length and the kind of the file.
    fn metadata(&self, path: &str) -> (answer: Result<FileMetadata, String>)
        ensures
            self.metadata_answer(path@) is Some ==> is_known_metadata(
                answer,
                self.metadata_answer(path@)->0,
            ),
    ;

    /// Reads the last bytes of the file: `count` of them, or the whole file
    /// if it is shorter.
    fn read_tail(&self, path: &str, count: usize) -> (answer: Result<Vec<u8>, String>)
        ensures
            self.tail_answer(path@, count as nat) is Some ==> is_known_answer(
                answer,
                self.tail_answer(path@, count as nat)->0,
            ),
    ;
}

} // verus!
