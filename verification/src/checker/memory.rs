//! Files held in memory: a reader that knows its answers beforehand.

use super::io_trait::{
    last_bytes, steps_of, FileMetadata, FileReader, LineEvent, LineSource, LineStep,
};
use super::rules::lines_of;
use crate::text::{same_text, split_lines, texts};
use vstd::prelude::*;
use vstd::string::StringExecFns;
use vstd::utf8::encode_utf8;

verus! {

/// One file held in memory.
pub struct StoredFile {
    pub path: String,
    pub content: String,
    /// The length that is reported for the file. It is the length of the
    /// content in bytes, unless another was asked for.
    pub len: u64,
    /// The number of lines after which reading line by line fails, if it
    /// is to fail.
    pub fails_after: Option<usize>,
}

/// The file that is stored under a path: the one stored last, if several
/// are.
pub open spec fn stored(files: Seq<StoredFile>, path: Seq<char>) -> Option<StoredFile>
    decreases files.len(),
{
    if files.len() == 0 {
        None
    } else if files.last().path@ == path {
        Some(files.last())
    } else {
        stored(files.drop_last(), path)
    }
}

/// The message for a path under which no file is stored.
pub open spec fn not_found(path: Seq<char>) -> Seq<char> {
    "File not found: "@ + path
}

/// The lines of a file that are handed out before reading fails, and
/// whether it fails: a file that is to fail after `k` lines hands out its
/// first `k` lines, or all if it has fewer, and then fails.
pub open spec fn served(file: StoredFile) -> (Seq<Seq<char>>, bool) {
    let lines = lines_of(file.content@);
    match file.fails_after {
        Some(k) => (
            if k <= lines.len() {
                lines.take(k as int)
            } else {
                lines
            },
            true,
        ),
        None => (lines, false),
    }
}

/// The lines of a file held in memory, handed out one by one.
pub struct MemoryLines {
    lines: Vec<String>,
    next: usize,
    failing: bool,
}

impl MemoryLines {
    /// The steps still to be made.
    pub closed spec fn rest(&self) -> Seq<LineStep> {
        if self.next <= self.lines@.len() {
            steps_of(texts(self.lines@).skip(self.next as int), self.failing)
        } else {
            Seq::empty()
        }
    }
}

impl LineSource for MemoryLines {
    /// The source knows what is coming: its lines, and then the failure
    /// if it is to fail.
    open spec fn coming(&self) -> Option<Seq<LineStep>> {
        Some(self.rest())
    }

    /// Hands out the next line; after the last line fails once, if it is
    /// to fail; and says from then on that none is left.
    fn next_line(&mut self) -> (event: LineEvent) {
        if self.next < self.lines.len() {
            let line = self.lines[self.next].clone();
            self.next = self.next + 1;
            proof {
                let before = texts(old(self).lines@).skip(old(self).next as int);
                let after = texts(self.lines@).skip(self.next as int);
                assert(after =~= before.drop_first());
                assert(before[0] == line@);
                assert(final(self).rest() =~= old(self).rest().drop_first());
                assert(old(self).rest()[0] == LineStep::Line(line@));
            }
            LineEvent::Line(line)
        } else if self.next == self.lines.len() && self.failing {
            self.failing = false;
            proof {
                let none = texts(self.lines@).skip(self.next as int);
                assert(none.len() == 0);
                assert(old(self).rest() =~= seq![LineStep::Failed]);
                assert(final(self).rest() =~= old(self).rest().drop_first());
            }
            LineEvent::Failed
        } else {
            proof {
                if self.next <= self.lines@.len() {
                    assert(texts(self.lines@).skip(self.next as int).len() == 0);
                }
                assert(old(self).rest().len() == 0);
            }
            LineEvent::End
        }
    }
}

/// Files held in memory. What is read from them is what was stored, and a
/// path under which nothing was stored is not found.
pub struct MemoryFiles {
    files: Vec<StoredFile>,
}

impl MemoryFiles {
    /// The files stored, in the order they were stored.
    pub closed spec fn files(&self) -> Seq<StoredFile> {
        self.files@
    }

    /// No file yet.
    pub fn new() -> (memory: Self)
        ensures
            memory.files() == Seq::<StoredFile>::empty(),
    {
        MemoryFiles { files: Vec::new() }
    }

    /// Stores a file. Its reported length is that of its content in bytes.
    pub fn add_file(&mut self, path: &str, content: &str)
        ensures
            final(self).files().len() == old(self).files().len() + 1,
            final(self).files().drop_last() == old(self).files(),
            final(self).files().last().path@ == path@,
            final(self).files().last().content@ == content@,
            final(self).files().last().len == content.len() as u64,
            final(self).files().last().fails_after is None,
    {
        let len = content.len() as u64;
        self.store(path, content, len, None);
    }

    /// Stores a file and has another length reported for it than that of
    /// its content: so a small file can be read in the way of a large one.
    pub fn add_file_reporting(&mut self, path: &str, content: &str, len: u64)
        ensures
            final(self).files().len() == old(self).files().len() + 1,
            final(self).files().drop_last() == old(self).files(),
            final(self).files().last().path@ == path@,
            final(self).files().last().content@ == content@,
            final(self).files().last().len == len,
            final(self).files().last().fails_after is None,
    {
        self.store(path, content, len, None);
    }

    /// Stores a file, with a reported length, whose reading line by line
    /// fails after `lines` lines.
    pub fn add_file_failing(&mut self, path: &str, content: &str, len: u64, lines: usize)
        ensures
            final(self).files().len() == old(self).files().len() + 1,
            final(self).files().drop_last() == old(self).files(),
            final(self).files().last().path@ == path@,
            final(self).files().last().content@ == content@,
            final(self).files().last().len == len,
            final(self).files().last().fails_after == Some(lines),
    {
        self.store(path, content, len, Some(lines));
    }

    /// Stores a file.
    fn store(&mut self, path: &str, content: &str, len: u64, fails_after: Option<usize>)
        ensures
            final(self).files().len() == old(self).files().len() + 1,
            final(self).files().drop_last() == old(self).files(),
            final(self).files().last().path@ == path@,
            final(self).files().last().content@ == content@,
            final(self).files().last().len == len,
            final(self).files().last().fails_after == fails_after,
    {
        self.files.push(
            StoredFile { path: path.to_owned(), content: content.to_owned(), len, fails_after },
        );
        assert(final(self).files().drop_last() =~= old(self).files());
    }

    /// The position of the file stored under the path, if one is.
    fn find(&self, path: &str) -> (position: Option<usize>)
        ensures
            position is Some <==> stored(self.files(), path@) is Some,
            position is Some ==> position->0 < self.files().len() && stored(self.files(), path@)
                == Some(self.files()[position->0 as int]),
    {
        let mut i: usize = self.files.len();
        assert(self.files@.take(i as int) =~= self.files@);
        while i > 0
            invariant
                0 <= i <= self.files@.len(),
                stored(self.files@, path@) == stored(self.files@.take(i as int), path@),
            decreases i,
        {
            let ghost cut = self.files@.take(i as int);
            proof {
                assert(cut.last() == self.files@[i - 1]);
                assert(cut.drop_last() =~= self.files@.take(i as int - 1));
            }
            if same_text(self.files[i - 1].path.as_str(), path) {
                return Some(i - 1);
            }
            i = i - 1;
        }
        None
    }

    /// The message for a path under which no file is stored.
    fn missing(path: &str) -> (message: String)
        ensures
            message@ == not_found(path@),
    {
        let mut message = "File not found: ".to_owned();
        message.append(path);
        message
    }
}

impl FileReader for MemoryFiles {
    type Lines = MemoryLines;

    /// The length reported for the file stored under the path, which is a
    /// regular file; or that the path is not found.
    open spec fn metadata_answer(&self, path: Seq<char>) -> Option<
        Result<FileMetadata, Seq<char>>,
    > {
        match stored(self.files(), path) {
            Some(file) => Some(Ok(FileMetadata { len: file.len, is_file: true, is_dir: false })),
            None => Some(Err(not_found(path))),
        }
    }

    /// The content stored under the path, or that the path is not found.
    open spec fn text_answer(&self, path: Seq<char>) -> Option<Result<Seq<char>, Seq<char>>> {
        match stored(self.files(), path) {
            Some(file) => Some(Ok(file.content@)),
            None => Some(Err(not_found(path))),
        }
    }

    /// The lines of the content stored under the path, up to where reading
    /// is to fail; or that the path is not found.
    open spec fn lines_answer(&self, path: Seq<char>) -> Option<
        Result<Seq<LineStep>, Seq<char>>,
    > {
        match stored(self.files(), path) {
            Some(file) => Some(Ok(steps_of(served(file).0, served(file).1))),
            None => Some(Err(not_found(path))),
        }
    }

    /// The last bytes of the content stored under the path, or that the
    /// path is not found.
    open spec fn tail_answer(&self, path: Seq<char>, count: nat) -> Option<
        Result<Seq<u8>, Seq<char>>,
    > {
        match stored(self.files(), path) {
            Some(file) => Some(Ok(last_bytes(encode_utf8(file.content@), count))),
            None => Some(Err(not_found(path))),
        }
    }

    fn read_to_string(&self, path: &str) -> (answer: Result<String, String>) {
        match self.find(path) {
            Some(i) => Ok(self.files[i].content.clone()),
            None => Err(MemoryFiles::missing(path)),
        }
    }

    fn open(&self, path: &str) -> (answer: Result<MemoryLines, String>) {
        match self.find(path) {
            Some(i) => {
                let file = &self.files[i];
                let mut lines = split_lines(file.content.as_str());
                let ghost all = texts(lines@);
                let failing = match file.fails_after {
                    Some(k) => {
                        if k <= lines.len() {
                            lines.truncate(k);
                            assert(texts(lines@) =~= all.take(k as int));
                        }
                        true
                    },
                    None => false,
                };
                let source = MemoryLines { lines, next: 0, failing };
                assert(texts(source.lines@).skip(0) =~= texts(source.lines@));
                Ok(source)
            },
            None => Err(MemoryFiles::missing(path)),
        }
    }

    fn metadata(&self, path: &str) -> (answer: Result<FileMetadata, String>) {
        match self.find(path) {
            Some(i) => Ok(FileMetadata { len: self.files[i].len, is_file: true, is_dir: false }),
            None => Err(MemoryFiles::missing(path)),
        }
    }

    fn read_tail(&self, path: &str, count: usize) -> (answer: Result<Vec<u8>, String>) {
        match self.find(path) {
            Some(i) => {
                let bytes = self.files[i].content.as_str().as_bytes();
                let n: usize = bytes.len();
                let from: usize = if n <= count {
                    0
                } else {
                    n - count
                };
                let mut tail: Vec<u8> = Vec::new();
                let mut k: usize = from;
                while k < n
                    invariant
                        from <= k <= n,
                        n == bytes@.len(),
                        tail@ == bytes@.subrange(from as int, k as int),
                    decreases n - k,
                {
                    tail.push(bytes[k]);
                    k = k + 1;
                    assert(bytes@.subrange(from as int, k as int) =~= bytes@.subrange(
                        from as int,
                        k as int - 1,
                    ).push(bytes@[k as int - 1]));
                }
                assert(tail@ =~= last_bytes(bytes@, count as nat));
                Ok(tail)
            },
            None => Err(MemoryFiles::missing(path)),
        }
    }
}

impl Default for MemoryFiles {
    fn default() -> (memory: Self)
        ensures
            memory.files() == Seq::<StoredFile>::empty(),
    {
        MemoryFiles::new()
    }
}

} // verus!
