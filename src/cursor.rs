//! A forward-reading cursor over the lines of a document, with saved
//! positions that it can return to.
use vstd::prelude::*;

verus! {

/// A saved place in a document: the number of lines read before it.
#[derive(Clone, Copy, Debug)]
pub struct CursorPosition {
    offset: usize,
}

impl CursorPosition {
    /// The number of lines that lie before this place.
    pub closed spec fn offset(&self) -> int {
        self.offset as int
    }
}

/// The lines of a document and the place of the next line to read.
pub struct DocumentCursor {
    lines: Vec<String>,
    pos: usize,
}

impl DocumentCursor {
    /// The document's lines, without their line breaks.
    pub closed spec fn lines(&self) -> Seq<Seq<char>> {
        self.lines@.map_values(|l: String| l@)
    }

    /// The index of the next line to read; the number of lines when all are read.
    pub closed spec fn pos(&self) -> int {
        self.pos as int
    }

    /// A cursor at the start of a document with the given lines.
    pub fn new(lines: Vec<String>) -> (r: DocumentCursor)
        ensures
            r.lines() == lines@.map_values(|l: String| l@),
            r.pos() == 0,
    {
        DocumentCursor { lines, pos: 0 }
    }

    /// The number of lines in the document.
    pub fn len(&self) -> (r: usize)
        ensures
            r == self.lines().len(),
    {
        self.lines.len()
    }

    /// The current place, to come back to later.
    pub fn save_position(&self) -> (r: CursorPosition)
        ensures
            r.offset() == self.pos(),
    {
        CursorPosition { offset: self.pos }
    }

    /// Returns to a saved place.
    pub fn restore(&mut self, p: CursorPosition)
        requires
            p.offset() <= old(self).lines().len(),
        ensures
            final(self).lines() == old(self).lines(),
            final(self).pos() == p.offset(),
    {
        self.pos = p.offset;
    }

    /// Returns to the start of the document.
    pub fn rewind(&mut self)
        ensures
            final(self).lines() == old(self).lines(),
            final(self).pos() == 0,
    {
        self.pos = 0;
    }

    /// Reads the next line, or `None` once every line has been read.
    pub fn next_line(&mut self) -> (r: Option<String>)
        ensures
            final(self).lines() == old(self).lines(),
            old(self).pos() < old(self).lines().len() ==> r is Some && r->0@ == old(self).lines()[old(self).pos()]
                && final(self).pos() == old(self).pos() + 1,
            old(self).pos() >= old(self).lines().len() ==> r is None && final(self).pos() == old(self).pos(),
    {
        if self.pos < self.lines.len() {
            let line = self.lines[self.pos].clone();
            self.pos = self.pos + 1;
            Some(line)
        } else {
            None
        }
    }
}

} // verus!
