//! The three forward scans: for a book's header, for a chapter's header within
//! that book, and for a verse within that chapter.
use vstd::prelude::*;
use crate::cursor::DocumentCursor;
use crate::text::{
    chars_of, contains_chars, has_infix, matches_at, starts_with, to_upper, trim, trim_of,
    upper_of,
};

verus! {

/// The words that open a book's header.
pub open spec fn book_marker() -> Seq<char> {
    seq!['T', 'H', 'E', ' ', 'B', 'O', 'O', 'K', ' ', 'O', 'F']
}

/// The word that opens a chapter's header.
pub open spec fn chapter_word() -> Seq<char> {
    seq!['C', 'H', 'A', 'P', 'T', 'E', 'R']
}

/// The word that opens a psalm's header.
pub open spec fn psalm_word() -> Seq<char> {
    seq!['P', 'S', 'A', 'L', 'M']
}

/// A line as the scans compare it: trimmed, then upper-cased.
pub open spec fn normalized(raw: Seq<char>) -> Seq<char> {
    upper_of(trim_of(raw))
}

/// `line` is exactly the header of the book `book`.
pub open spec fn heads_book(line: Seq<char>, book: Seq<char>) -> bool {
    line == book_marker() + seq![' '] + book
}

/// The outcome of scanning `lines` for the header of `book`, from index `from`
/// on: whether it was found, and the index of the line after the last one read.
pub open spec fn book_scan(lines: Seq<Seq<char>>, from: int, book: Seq<char>) -> (bool, int)
    decreases lines.len() - from,
{
    if from >= lines.len() {
        (false, from)
    } else if heads_book(normalized(lines[from]), upper_of(book)) {
        (true, from + 1)
    } else {
        book_scan(lines, from + 1, book)
    }
}

fn book_marker_chars() -> (r: Vec<char>)
    ensures
        r@ == book_marker(),
{
    let r: Vec<char> = vec!['T', 'H', 'E', ' ', 'B', 'O', 'O', 'K', ' ', 'O', 'F'];
    assert(r@ =~= book_marker());
    r
}

/// Whether the normalized line `line` is the header of the book `book`
/// (already upper-cased).
pub fn is_book_header(line: &str, book: &str) -> (r: bool)
    ensures
        r == heads_book(line@, book@),
{
    let l = chars_of(line);
    let b = chars_of(book);
    let mut m = book_marker_chars();
    m.push(' ');
    assert(m@ =~= book_marker() + seq![' ']);
    if l.len() < m.len() || l.len() - m.len() != b.len() {
        return false;
    }
    let r = matches_at(&l, 0, &m) && matches_at(&l, m.len(), &b);
    proof {
        if r {
            assert(l@ =~= m@ + b@);
        } else if l@ == m@ + b@ {
            assert(l@.subrange(0, m@.len() as int) =~= m@);
            assert(l@.subrange(m@.len() as int, (m@.len() + b@.len()) as int) =~= b@);
        }
    }
    r
}

/// Reads lines forward until the header of `book` (compared without regard to
/// case or surrounding white space); returns whether it was found. The cursor
/// is then just past that header, or at the end of the document.
pub fn search_book(file: &mut DocumentCursor, book: &String) -> (found: bool)
    ensures
        final(file).lines() == old(file).lines(),
        (found, final(file).pos()) == book_scan(old(file).lines(), old(file).pos(), book@),
{
    let wanted = to_upper(book.as_str());
    loop
        invariant
            file.lines() == old(file).lines(),
            book_scan(file.lines(), file.pos(), book@) == book_scan(
                old(file).lines(),
                old(file).pos(),
                book@,
            ),
            wanted@ == upper_of(book@),
        decreases file.lines().len() - file.pos(),
    {
        match file.next_line() {
            None => {
                return false;
            },
            Some(raw) => {
                let line = to_upper(trim(raw.as_str()));
                if is_book_header(line.as_str(), wanted.as_str()) {
                    return true;
                }
            },
        }
    }
}

/// The index of the first space in `s` at or after `i`, or the length of `s`.
pub open spec fn word_end(s: Seq<char>, i: int) -> int
    decreases s.len() - i,
{
    if i >= s.len() {
        s.len() as int
    } else if s[i] == ' ' {
        i
    } else {
        word_end(s, i + 1)
    }
}

/// `line` has at least two space-separated words, the first is `CHAPTER` or
/// `PSALM`, and the second, trimmed, is exactly `chapter`.
pub open spec fn heads_chapter(line: Seq<char>, chapter: Seq<char>) -> bool {
    let e = word_end(line, 0);
    let first = line.subrange(0, e);
    let second = line.subrange(e + 1, word_end(line, e + 1));
    e < line.len() && (first == chapter_word() || first == psalm_word()) && trim_of(second)
        == chapter
}

/// The raw line lies past the end of the current book: it holds a book header.
pub open spec fn ends_book(raw: Seq<char>) -> bool {
    has_infix(raw, book_marker())
}

/// The outcome of scanning `lines` for the header of chapter `chapter`, from
/// index `from` on, stopping at the next book: whether it was found, and the
/// index of the line after the last one read.
pub open spec fn chapter_scan(lines: Seq<Seq<char>>, from: int, chapter: Seq<char>) -> (bool, int)
    decreases lines.len() - from,
{
    if from >= lines.len() {
        (false, from)
    } else if ends_book(lines[from]) {
        (false, from + 1)
    } else if heads_chapter(normalized(lines[from]), chapter) {
        (true, from + 1)
    } else {
        chapter_scan(lines, from + 1, chapter)
    }
}

/// The index of the first space in `s` at or after `i`, or the length of `s`.
fn find_word_end(s: &Vec<char>, i: usize) -> (r: usize)
    requires
        i <= s.len(),
    ensures
        r == word_end(s@, i as int),
        i <= r <= s.len(),
{
    let mut j = i;
    while j < s.len() && s[j] != ' '
        invariant
            i <= j <= s.len(),
            word_end(s@, j as int) == word_end(s@, i as int),
        decreases s.len() - j,
    {
        j = j + 1;
    }
    j
}

/// Whether the chapter header test holds of the normalized line `line`.
pub fn is_chapter_header(line: &str, chapter: &str) -> (r: bool)
    ensures
        r == heads_chapter(line@, chapter@),
{
    let l = chars_of(line);
    let e = find_word_end(&l, 0);
    if e >= l.len() {
        return false;
    }
    let cw: Vec<char> = vec!['C', 'H', 'A', 'P', 'T', 'E', 'R'];
    let pw: Vec<char> = vec!['P', 'S', 'A', 'L', 'M'];
    assert(cw@ =~= chapter_word());
    assert(pw@ =~= psalm_word());
    let is_chapter = e == cw.len() && matches_at(&l, 0, &cw);
    let is_psalm = e == pw.len() && matches_at(&l, 0, &pw);
    proof {
        if l@.subrange(0, e as int) == chapter_word() {
            assert(l@.subrange(0, cw@.len() as int) =~= cw@);
        }
        if l@.subrange(0, e as int) == psalm_word() {
            assert(l@.subrange(0, pw@.len() as int) =~= pw@);
        }
    }
    if !is_chapter && !is_psalm {
        return false;
    }
    let f = find_word_end(&l, e + 1);
    let second = line.substring_char(e + 1, f);
    let t = chars_of(trim(second));
    let c = chars_of(chapter);
    let same = t.len() == c.len() && matches_at(&t, 0, &c);
    proof {
        if same {
            assert(t@ =~= c@);
        } else if t@ == c@ {
            assert(t@.subrange(0, c@.len() as int) =~= c@);
        }
    }
    same
}

/// Reads lines forward until the header of chapter (or psalm) `chapter`, and
/// gives up at the end of the document or at a line holding a book header;
/// returns whether it was found. The cursor is then just past the last line read.
pub fn search_chapter(file: &mut DocumentCursor, chapter: &String) -> (found: bool)
    ensures
        final(file).lines() == old(file).lines(),
        (found, final(file).pos()) == chapter_scan(old(file).lines(), old(file).pos(), chapter@),
{
    let marker = book_marker_chars();
    loop
        invariant
            file.lines() == old(file).lines(),
            chapter_scan(file.lines(), file.pos(), chapter@) == chapter_scan(
                old(file).lines(),
                old(file).pos(),
                chapter@,
            ),
            marker@ == book_marker(),
        decreases file.lines().len() - file.pos(),
    {
        match file.next_line() {
            None => {
                return false;
            },
            Some(raw) => {
                if contains_chars(&chars_of(raw.as_str()), &marker) {
                    return false;
                }
                let line = to_upper(trim(raw.as_str()));
                if is_chapter_header(line.as_str(), chapter.as_str()) {
                    return true;
                }
            },
        }
    }
}

/// A normalized line that lies past the verses of the current chapter: it opens
/// with `CHAPTER`, `PSALM` or a book header.
pub open spec fn ends_chapter(line: Seq<char>) -> bool {
    starts_with(line, chapter_word()) || starts_with(line, psalm_word()) || starts_with(
        line,
        book_marker(),
    )
}

/// The text of a trimmed verse line that opens with `verse`: what follows the
/// number and one separator, trimmed.
pub open spec fn verse_text(line: Seq<char>, verse: Seq<char>) -> Seq<char> {
    if verse.len() + 1 <= line.len() {
        trim_of(line.subrange(verse.len() + 1 as int, line.len() as int))
    } else {
        trim_of(Seq::empty())
    }
}

/// The outcome of scanning `lines` for verse `verse`, from index `from` on,
/// stopping at a blank line or at the next chapter or book: the verse's text
/// (empty when it was not found), and the index of the line after the last one read.
pub open spec fn verse_scan(lines: Seq<Seq<char>>, from: int, verse: Seq<char>) -> (
    Seq<char>,
    int,
)
    decreases lines.len() - from,
{
    if from >= lines.len() {
        (Seq::empty(), from)
    } else {
        let t = trim_of(lines[from]);
        if t.len() == 0 || ends_chapter(upper_of(t)) {
            (Seq::empty(), from + 1)
        } else if starts_with(t, verse) {
            (verse_text(t, verse), from + 1)
        } else {
            verse_scan(lines, from + 1, verse)
        }
    }
}

/// Whether the normalized line `line` ends the verses of a chapter.
pub fn is_chapter_end(line: &str) -> (r: bool)
    ensures
        r == ends_chapter(line@),
{
    let l = chars_of(line);
    let cw: Vec<char> = vec!['C', 'H', 'A', 'P', 'T', 'E', 'R'];
    let pw: Vec<char> = vec!['P', 'S', 'A', 'L', 'M'];
    let bm = book_marker_chars();
    assert(cw@ =~= chapter_word());
    assert(pw@ =~= psalm_word());
    matches_at(&l, 0, &cw) || matches_at(&l, 0, &pw) || matches_at(&l, 0, &bm)
}

/// The verse text of the trimmed line `line` when it opens with `verse`.
pub fn verse_in_line(line: &str, verse: &str) -> (r: Option<String>)
    ensures
        r is Some == starts_with(line@, verse@),
        r is Some ==> r->0@ == verse_text(line@, verse@),
{
    let l = chars_of(line);
    let v = chars_of(verse);
    if !matches_at(&l, 0, &v) {
        return None;
    }
    let rest = if v.len() < l.len() {
        line.substring_char(v.len() + 1, l.len())
    } else {
        line.substring_char(l.len(), l.len())
    };
    proof {
        if v.len() >= l.len() {
            assert(rest@ =~= Seq::<char>::empty());
        }
    }
    Some(String::from_str(trim(rest)))
}

/// Reads lines forward until the line of verse `verse`, and gives up at the end
/// of the document, at a blank line, or at the next chapter, psalm or book;
/// returns the verse's text, empty when it was not found. The cursor is then
/// just past the last line read.
pub fn search_verse(file: &mut DocumentCursor, verse: &String) -> (r: String)
    ensures
        final(file).lines() == old(file).lines(),
        (r@, final(file).pos()) == verse_scan(old(file).lines(), old(file).pos(), verse@),
{
    loop
        invariant
            file.lines() == old(file).lines(),
            verse_scan(file.lines(), file.pos(), verse@) == verse_scan(
                old(file).lines(),
                old(file).pos(),
                verse@,
            ),
        decreases file.lines().len() - file.pos(),
    {
        match file.next_line() {
            None => {
                return String::new();
            },
            Some(raw) => {
                let t = trim(raw.as_str());
                if t.is_empty() {
                    return String::new();
                }
                let u = to_upper(t);
                if is_chapter_end(u.as_str()) {
                    return String::new();
                }
                match verse_in_line(t, verse.as_str()) {
                    Some(text) => {
                        return text;
                    },
                    None => {},
                }
            },
        }
    }
}

/// A scan for a book from `from` stops just past the first header of that book
/// at or after `from`.
proof fn lemma_book_scan_finds(lines: Seq<Seq<char>>, from: int, book: Seq<char>, i: int)
    requires
        0 <= from <= i < lines.len(),
        heads_book(normalized(lines[i]), upper_of(book)),
        forall|j: int| from <= j < i ==> !heads_book(normalized(#[trigger] lines[j]), upper_of(book)),
    ensures
        book_scan(lines, from, book) == (true, i + 1),
    decreases i - from,
{
    if from < i {
        lemma_book_scan_finds(lines, from + 1, book, i);
    }
}

/// A scan for a book from `from` that meets no header of it ends at the end.
proof fn lemma_book_scan_misses(lines: Seq<Seq<char>>, from: int, book: Seq<char>)
    requires
        0 <= from <= lines.len(),
        forall|j: int| from <= j < lines.len() ==> !heads_book(normalized(#[trigger] lines[j]), upper_of(book)),
    ensures
        book_scan(lines, from, book) == (false, lines.len() as int),
    decreases lines.len() - from,
{
    if from < lines.len() {
        lemma_book_scan_misses(lines, from + 1, book);
    }
}

/// A scan for a chapter from `from` that meets no book header before a
/// matching chapter header at `k` succeeds, at `k` or before.
proof fn lemma_chapter_scan_finds(lines: Seq<Seq<char>>, from: int, chapter: Seq<char>, k: int)
    requires
        0 <= from <= k < lines.len(),
        !ends_book(lines[k]),
        heads_chapter(normalized(lines[k]), chapter),
        forall|j: int| from <= j < k ==> !ends_book(#[trigger] lines[j]),
    ensures
        chapter_scan(lines, from, chapter).0,
        from < chapter_scan(lines, from, chapter).1 <= k + 1,
    decreases k - from,
{
    if from < k && !heads_chapter(normalized(lines[from]), chapter) {
        lemma_chapter_scan_finds(lines, from + 1, chapter, k);
    }
}

/// Looking a book up from the start of the document finds it exactly when one
/// of its headers is there, and leaves the cursor just past the first one; a
/// chapter scan from that place then finds any matching chapter header that
/// comes before the next book's header.
pub proof fn lemma_book_then_chapter(
    lines: Seq<Seq<char>>,
    book: Seq<char>,
    i: int,
    chapter: Seq<char>,
    k: int,
)
    requires
        0 <= i < k < lines.len(),
        heads_book(normalized(lines[i]), upper_of(book)),
        forall|j: int| 0 <= j < i ==> !heads_book(normalized(#[trigger] lines[j]), upper_of(book)),
        !ends_book(lines[k]),
        heads_chapter(normalized(lines[k]), chapter),
        forall|j: int| i < j < k ==> !ends_book(#[trigger] lines[j]),
    ensures
        book_scan(lines, 0, book) == (true, i + 1),
        chapter_scan(lines, i + 1, chapter).0,
        i + 1 < chapter_scan(lines, i + 1, chapter).1 <= k + 1,
{
    lemma_book_scan_finds(lines, 0, book, i);
    lemma_chapter_scan_finds(lines, i + 1, chapter, k);
}

/// Looking up a book none of whose headers is in the document fails, with the
/// cursor at the end of the document.
pub proof fn lemma_book_absent(lines: Seq<Seq<char>>, book: Seq<char>)
    requires
        forall|j: int| 0 <= j < lines.len() ==> !heads_book(normalized(#[trigger] lines[j]), upper_of(book)),
    ensures
        book_scan(lines, 0, book) == (false, lines.len() as int),
{
    lemma_book_scan_misses(lines, 0, book);
}

/// A chapter scan never reads past a line that holds a book header: when it
/// succeeds, the chapter header it found lies before the first such line at
/// or after where it started.
pub proof fn lemma_chapter_within_book(
    lines: Seq<Seq<char>>,
    from: int,
    chapter: Seq<char>,
    q: int,
)
    requires
        0 <= from <= q < lines.len(),
        ends_book(lines[q]),
    ensures
        chapter_scan(lines, from, chapter).0 ==> chapter_scan(lines, from, chapter).1 <= q,
        chapter_scan(lines, from, chapter).1 <= q + 1,
    decreases q - from,
{
    if from < q && !ends_book(lines[from]) && !heads_chapter(normalized(lines[from]), chapter) {
        lemma_chapter_within_book(lines, from + 1, chapter, q);
    }
}

/// Each scan started within the document ends within it.
pub proof fn lemma_scans_end_in_document(
    lines: Seq<Seq<char>>,
    from: int,
    book: Seq<char>,
    chapter: Seq<char>,
    verse: Seq<char>,
)
    requires
        0 <= from <= lines.len(),
    ensures
        from <= book_scan(lines, from, book).1 <= lines.len(),
        from <= chapter_scan(lines, from, chapter).1 <= lines.len(),
        from <= verse_scan(lines, from, verse).1 <= lines.len(),
    decreases lines.len() - from,
{
    if from < lines.len() {
        lemma_scans_end_in_document(lines, from + 1, book, chapter, verse);
    }
}

} // verus!
