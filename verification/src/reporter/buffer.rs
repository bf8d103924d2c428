//! An output held in memory: it keeps every write made to it.

use super::traits::{painted, plain, Color, ColoredOutput, Output, Written};
use vstd::prelude::*;
use vstd::string::StringExecFns;

verus! {

/// One write as the buffer holds it: the text, and the colour if it was
/// written in one.
pub struct Chunk {
    pub text: String,
    pub color: Option<Color>,
}

impl View for Chunk {
    type V = Written;

    open spec fn view(&self) -> Written {
        Written { text: self.text@, color: self.color }
    }
}

/// The writes that chunks stand for, in the same order.
pub open spec fn writes_of(chunks: Seq<Chunk>) -> Seq<Written> {
    Seq::new(chunks.len(), |i: int| chunks[i]@)
}

/// The texts of writes in a row, colours left aside.
pub open spec fn flat_text(writes: Seq<Written>) -> Seq<char>
    decreases writes.len(),
{
    if writes.len() == 0 {
        Seq::empty()
    } else {
        flat_text(writes.drop_last()) + writes.last().text
    }
}

/// An output that keeps what is written to it, write by write. It never
/// fails.
pub struct BufferOutput {
    chunks: Vec<Chunk>,
}

impl View for BufferOutput {
    type V = Seq<Written>;

    closed spec fn view(&self) -> Seq<Written> {
        writes_of(self.chunks@)
    }
}

impl BufferOutput {
    /// A buffer that nothing was written to.
    pub fn new() -> (buffer: Self)
        ensures
            buffer@ == Seq::<Written>::empty(),
            buffer.written() == Some(buffer@),
            buffer.reliable(),
    {
        let buffer = BufferOutput { chunks: Vec::new() };
        assert(buffer@ =~= Seq::<Written>::empty());
        buffer
    }

    /// The number of writes made.
    pub fn len(&self) -> (count: usize)
        ensures
            count == self@.len(),
    {
        self.chunks.len()
    }

    /// The text of the write at position `i`.
    pub fn text_at(&self, i: usize) -> (text: &str)
        requires
            i < self@.len(),
        ensures
            text@ == self@[i as int].text,
    {
        self.chunks[i].text.as_str()
    }

    /// The colour of the write at position `i`, if it was made in one.
    pub fn color_at(&self, i: usize) -> (color: Option<Color>)
        requires
            i < self@.len(),
        ensures
            color == self@[i as int].color,
    {
        self.chunks[i].color
    }

    /// Everything that was written, as one text.
    pub fn contents(&self) -> (text: String)
        ensures
            text@ == flat_text(self@),
    {
        let mut text = String::new();
        let mut i: usize = 0;
        assert(self@.take(0) =~= Seq::<Written>::empty());
        while i < self.chunks.len()
            invariant
                0 <= i <= self.chunks@.len(),
                self@ == writes_of(self.chunks@),
                text@ == flat_text(self@.take(i as int)),
            decreases self.chunks@.len() - i,
        {
            proof {
                assert(self@.take(i as int + 1).drop_last() =~= self@.take(i as int));
                assert(self@.take(i as int + 1).last() == self.chunks@[i as int]@);
            }
            text.append(self.chunks[i].text.as_str());
            i = i + 1;
        }
        assert(self@.take(self.chunks@.len() as int) =~= self@);
        text
    }

    /// Keeps one more write.
    fn keep(&mut self, content: &str, color: Option<Color>)
        ensures
            final(self)@ == old(self)@.push(Written { text: content@, color }),
    {
        self.chunks.push(Chunk { text: content.to_owned(), color });
        assert(final(self)@ =~= old(self)@.push(Written { text: content@, color }));
    }
}

impl Output for BufferOutput {
    /// The buffer keeps account: its writes are what it holds.
    open spec fn written(&self) -> Option<Seq<Written>> {
        Some(self@)
    }

    /// The buffer never fails.
    open spec fn reliable(&self) -> bool {
        true
    }

    /// Keeps the text as one more write. It always succeeds.
    fn write(&mut self, content: &str) -> (done: Result<(), std::io::Error>)
        ensures
            done is Ok,
    {
        self.keep(content, None);
        assert(old(self)@.push(plain(content@)) =~= old(self)@ + seq![plain(content@)]);
        Ok(())
    }

    /// Does nothing, and succeeds.
    fn flush(&mut self) -> (done: Result<(), std::io::Error>)
        ensures
            done is Ok,
    {
        Ok(())
    }
}

impl ColoredOutput for BufferOutput {
    /// Keeps the text and its colour as one more write. It always succeeds.
    fn write_colored(&mut self, content: &str, color: Color) -> (done: Result<(), std::io::Error>)
        ensures
            done is Ok,
    {
        self.keep(content, Some(color));
        assert(old(self)@.push(painted(content@, color)) =~= old(self)@ + seq![
            painted(content@, color),
        ]);
        Ok(())
    }
}

impl Default for BufferOutput {
    fn default() -> (buffer: Self)
        ensures
            buffer@ == Seq::<Written>::empty(),
    {
        BufferOutput::new()
    }
}

} // verus!
