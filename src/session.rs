//! The lookup dialogue as a state machine: each line the user enters moves it
//! from one stage to the next and tells the caller what to report.
use vstd::prelude::*;
use crate::abbrev::AbbreviationTable;
use crate::cursor::{CursorPosition, DocumentCursor};
use crate::formatter::{composed, pretty_print, wrap_from};
use crate::scanner::{
    book_scan, chapter_scan, lemma_scans_end_in_document, search_book, search_chapter,
    search_verse, verse_scan,
};
use crate::text::{chars_of, contains_chars, has_infix, matches_at, to_upper, trim, trim_of, upper_of};

verus! {

/// What the dialogue waits for.
#[derive(Clone, Copy, Debug, PartialEq, Eq, Structural)]
pub enum Stage {
    /// The name (or abbreviation) of a book.
    Book,
    /// A chapter of the book found.
    Chapter,
    /// A verse of the chapter found.
    Verse,
    /// Whether to look up another verse.
    Another,
    /// Nothing: the dialogue is over.
    Finished,
}

/// What the caller is to report after a line of input.
#[derive(Debug, PartialEq, Eq)]
pub enum Action {
    /// End the dialogue, successfully.
    Quit,
    /// The book was found; `replaced` tells whether an abbreviation was expanded.
    BookFound { replaced: bool },
    /// The book was not found; `replaced` tells whether an abbreviation was expanded.
    BookMissing { replaced: bool },
    /// The chapter was found in the book.
    ChapterFound,
    /// The chapter is not in the book.
    ChapterMissing,
    /// The verse was found; `output` is its wrapped rendering.
    VerseFound { output: String },
    /// The verse is not in the chapter.
    VerseMissing,
    /// The reference was abandoned; the dialogue asks for a book again.
    Restart,
    /// Another lookup begins; the dialogue asks for a book again.
    Another,
}

/// A line of input as the dialogue reads it: trimmed, then upper-cased.
pub open spec fn normal_input(input: Seq<char>) -> Seq<char> {
    upper_of(trim_of(input))
}

/// A word that, anywhere in the input, ends the dialogue.
pub open spec fn exit_word() -> Seq<char> {
    seq!['E', 'X', 'I', 'T']
}

/// The other word that, anywhere in the input, ends the dialogue.
pub open spec fn quit_word() -> Seq<char> {
    seq!['Q', 'U', 'I', 'T']
}

/// The input that abandons the reference being looked up.
pub open spec fn reset_word() -> Seq<char> {
    seq!['R', 'E', 'S', 'E', 'T']
}

/// A normalized input that ends the dialogue at any stage.
pub open spec fn is_quit(n: Seq<char>) -> bool {
    has_infix(n, exit_word()) || has_infix(n, quit_word())
}

/// The book name that a normalized input stands for.
pub open spec fn resolved(table: Map<Seq<char>, Seq<char>>, n: Seq<char>) -> Seq<char> {
    if table.contains_key(upper_of(n)) {
        upper_of(table[upper_of(n)])
    } else {
        n
    }
}

/// The dialogue was set back to ask for a book, keeping nothing of the reference.
pub open spec fn restarted(f: SessionView) -> bool {
    &&& f.stage == Stage::Book
    &&& f.book.len() == 0
    &&& f.chapter.len() == 0
    &&& f.verse.len() == 0
}

/// How the dialogue in state `o` answers the normalized input `n`, going to
/// state `f` and telling the caller `a`. Input holding `EXIT` or `QUIT` ends it
/// at any stage. At the book stage the input, expanded when it is an
/// abbreviation, is looked up from the start of the document. At the chapter and
/// verse stages `RESET` abandons the reference; other input is looked up from
/// the place saved by the stage before. Once a verse is found, an answer that
/// starts with `Y` begins another lookup and any other ends the dialogue.
pub open spec fn responds(o: SessionView, n: Seq<char>, f: SessionView, a: Action) -> bool {
    &&& f.lines == o.lines
    &&& f.table == o.table
    &&& if o.stage == Stage::Finished || is_quit(n) {
        a is Quit && f.stage == Stage::Finished
    } else if o.stage == Stage::Book {
        let b = resolved(o.table, n);
        let replaced = o.table.contains_key(upper_of(n));
        let found = book_scan(o.lines, 0, b).0;
        &&& f.book == b
        &&& f.chapter == o.chapter
        &&& f.verse == o.verse
        &&& a == (if found {
            Action::BookFound { replaced }
        } else {
            Action::BookMissing { replaced }
        })
        &&& f.stage == (if found {
            Stage::Chapter
        } else {
            Stage::Book
        })
        &&& found ==> f.book_mark == book_scan(o.lines, 0, b).1
    } else if (o.stage == Stage::Chapter || o.stage == Stage::Verse) && n == reset_word() {
        a is Restart && restarted(f)
    } else if o.stage == Stage::Chapter {
        let found = chapter_scan(o.lines, o.book_mark, n).0;
        &&& f.book == o.book
        &&& f.chapter == n
        &&& f.verse == o.verse
        &&& f.book_mark == o.book_mark
        &&& a == (if found {
            Action::ChapterFound
        } else {
            Action::ChapterMissing
        })
        &&& f.stage == (if found {
            Stage::Verse
        } else {
            Stage::Chapter
        })
        &&& found ==> f.chapter_mark == chapter_scan(o.lines, o.book_mark, n).1
    } else if o.stage == Stage::Verse {
        let text = verse_scan(o.lines, o.chapter_mark, n).0;
        &&& f.book == o.book
        &&& f.chapter == o.chapter
        &&& f.verse == n
        &&& f.book_mark == o.book_mark
        &&& f.chapter_mark == o.chapter_mark
        &&& if text.len() > 0 {
            &&& a is VerseFound
            &&& a->output@ == wrap_from(composed(o.book, o.chapter, n, text), 0)
            &&& f.stage == Stage::Another
        } else {
            a is VerseMissing && f.stage == Stage::Verse
        }
    } else if n.len() > 0 && n[0] == 'Y' {
        a is Another && restarted(f)
    } else {
        a is Quit && f.stage == Stage::Finished
    }
}

/// Whether the normalized input `n` asks to end the dialogue.
pub fn quit_requested(n: &str) -> (r: bool)
    ensures
        r == is_quit(n@),
{
    let l = chars_of(n);
    let exit: Vec<char> = vec!['E', 'X', 'I', 'T'];
    let quit: Vec<char> = vec!['Q', 'U', 'I', 'T'];
    assert(exit@ =~= exit_word());
    assert(quit@ =~= quit_word());
    contains_chars(&l, &exit) || contains_chars(&l, &quit)
}

fn is_reset(n: &str) -> (r: bool)
    ensures
        r == (n@ == reset_word()),
{
    let l = chars_of(n);
    let reset: Vec<char> = vec!['R', 'E', 'S', 'E', 'T'];
    assert(reset@ =~= reset_word());
    let r = l.len() == reset.len() && matches_at(&l, 0, &reset);
    proof {
        if r {
            assert(l@ =~= reset@);
        } else if l@ == reset@ {
            assert(l@.subrange(0, reset@.len() as int) =~= reset@);
        }
    }
    r
}

fn is_yes(n: &str) -> (r: bool)
    ensures
        r == (n@.len() > 0 && n@[0] == 'Y'),
{
    let l = chars_of(n);
    l.len() > 0 && l[0] == 'Y'
}

/// The state of one dialogue over one document.
pub struct Session {
    cursor: DocumentCursor,
    table: AbbreviationTable,
    stage: Stage,
    book: String,
    chapter: String,
    verse: String,
    book_mark: CursorPosition,
    chapter_mark: CursorPosition,
}

/// What a dialogue holds, as plain values.
pub struct SessionView {
    pub lines: Seq<Seq<char>>,
    pub table: Map<Seq<char>, Seq<char>>,
    pub stage: Stage,
    pub book: Seq<char>,
    pub chapter: Seq<char>,
    pub verse: Seq<char>,
    /// Where the chapter scans start: just past the book's header.
    pub book_mark: int,
    /// Where the verse scans start: just past the chapter's header.
    pub chapter_mark: int,
}

impl View for Session {
    type V = SessionView;

    closed spec fn view(&self) -> SessionView {
        SessionView {
            lines: self.cursor.lines(),
            table: self.table@,
            stage: self.stage,
            book: self.book@,
            chapter: self.chapter@,
            verse: self.verse@,
            book_mark: self.book_mark.offset(),
            chapter_mark: self.chapter_mark.offset(),
        }
    }
}

impl Session {
    /// The saved places lie within the document.
    pub closed spec fn wf(&self) -> bool {
        &&& 0 <= self.book_mark.offset() <= self.cursor.lines().len()
        &&& 0 <= self.chapter_mark.offset() <= self.cursor.lines().len()
    }

    /// A dialogue over a document with the given lines, waiting for a book.
    pub fn new(lines: Vec<String>, table: AbbreviationTable) -> (r: Session)
        ensures
            r.wf(),
            r@.lines == lines@.map_values(|l: String| l@),
            r@.table == table@,
            r@.stage == Stage::Book,
            r@.book.len() == 0 && r@.chapter.len() == 0 && r@.verse.len() == 0,
    {
        let cursor = DocumentCursor::new(lines);
        let start = cursor.save_position();
        Session {
            cursor,
            table,
            stage: Stage::Book,
            book: String::new(),
            chapter: String::new(),
            verse: String::new(),
            book_mark: start,
            chapter_mark: start,
        }
    }

    /// What the dialogue waits for.
    pub fn stage(&self) -> (r: Stage)
        ensures
            r == self@.stage,
    {
        self.stage
    }

    /// The book of the reference being looked up.
    pub fn book(&self) -> (r: &String)
        ensures
            r@ == self@.book,
    {
        &self.book
    }

    /// The chapter of the reference being looked up.
    pub fn chapter(&self) -> (r: &String)
        ensures
            r@ == self@.chapter,
    {
        &self.chapter
    }

    /// The verse of the reference being looked up.
    pub fn verse(&self) -> (r: &String)
        ensures
            r@ == self@.verse,
    {
        &self.verse
    }

    /// Answers a line of input that is already trimmed and upper-cased.
    pub fn respond(&mut self, n: &String) -> (a: Action)
        requires
            old(self).wf(),
        ensures
            final(self).wf(),
            responds(old(self)@, n@, final(self)@, a),
    {
        if self.stage == Stage::Finished || quit_requested(n.as_str()) {
            self.stage = Stage::Finished;
            return Action::Quit;
        }
        if (self.stage == Stage::Chapter || self.stage == Stage::Verse) && is_reset(n.as_str()) {
            self.start_over();
            return Action::Restart;
        }
        match self.stage {
            Stage::Book => {
                let replaced = self.table.get(&to_upper(n.as_str())).is_some();
                let b = self.table.resolve(n);
                self.cursor.rewind();
                let found = search_book(&mut self.cursor, &b);
                proof {
                    lemma_scans_end_in_document(self.cursor.lines(), 0, b@, b@, b@);
                }
                self.book = b;
                if found {
                    self.book_mark = self.cursor.save_position();
                    self.stage = Stage::Chapter;
                    Action::BookFound { replaced }
                } else {
                    Action::BookMissing { replaced }
                }
            },
            Stage::Chapter => {
                self.cursor.restore(self.book_mark);
                let found = search_chapter(&mut self.cursor, n);
                proof {
                    lemma_scans_end_in_document(self.cursor.lines(), self.book_mark.offset(), n@, n@, n@);
                }
                self.chapter = n.clone();
                if found {
                    self.chapter_mark = self.cursor.save_position();
                    self.stage = Stage::Verse;
                    Action::ChapterFound
                } else {
                    Action::ChapterMissing
                }
            },
            Stage::Verse => {
                self.cursor.restore(self.chapter_mark);
                let text = search_verse(&mut self.cursor, n);
                self.verse = n.clone();
                if text.as_str().is_empty() {
                    Action::VerseMissing
                } else {
                    let output = pretty_print(&self.book, &self.chapter, &self.verse, &text);
                    self.stage = Stage::Another;
                    Action::VerseFound { output }
                }
            },
            _ => {
                if is_yes(n.as_str()) {
                    self.start_over();
                    Action::Another
                } else {
                    self.stage = Stage::Finished;
                    Action::Quit
                }
            },
        }
    }

    /// Answers a line of input as the user typed it.
    pub fn step(&mut self, input: &String) -> (a: Action)
        requires
            old(self).wf(),
        ensures
            final(self).wf(),
            responds(old(self)@, normal_input(input@), final(self)@, a),
    {
        let n = to_upper(trim(input.as_str()));
        self.respond(&n)
    }

    fn start_over(&mut self)
        ensures
            final(self).cursor == old(self).cursor,
            final(self).table == old(self).table,
            final(self).book_mark == old(self).book_mark,
            final(self).chapter_mark == old(self).chapter_mark,
            final(self).stage == Stage::Book,
            final(self).book@.len() == 0,
            final(self).chapter@.len() == 0,
            final(self).verse@.len() == 0,
    {
        self.stage = Stage::Book;
        self.book = String::new();
        self.chapter = String::new();
        self.verse = String::new();
    }
}

/// Input that holds `EXIT` or `QUIT` ends the dialogue, whatever its stage.
pub proof fn lemma_quit_at_any_stage(o: SessionView, n: Seq<char>, f: SessionView, a: Action)
    requires
        responds(o, n, f, a),
        is_quit(n),
    ensures
        a is Quit,
        f.stage == Stage::Finished,
{
}

/// `RESET` entered when a chapter is asked for abandons the reference: the
/// dialogue asks for a book again and keeps no book, chapter or verse.
pub proof fn lemma_reset_at_chapter(o: SessionView, f: SessionView, a: Action)
    requires
        o.stage == Stage::Chapter,
        responds(o, reset_word(), f, a),
    ensures
        a is Restart,
        restarted(f),
{
    let r = reset_word();
    assert forall|i: int| 0 <= i && i + 4 <= r.len() implies #[trigger] r.subrange(i, i + 4)
        != exit_word() && r.subrange(i, i + 4) != quit_word() by {
        assert(r.subrange(i, i + 4)[0] != quit_word()[0]);
        assert(r.subrange(i, i + 4)[1] != exit_word()[1]);
    }
    assert(!is_quit(r));
}

} // verus!
