use bible_lookup::abbrev::{AbbreviationTable, TableError};
use bible_lookup::cursor::DocumentCursor;
use bible_lookup::scanner::{is_book_header, is_chapter_header, is_chapter_end, verse_in_line};
use bible_lookup::session::{quit_requested, Action, Session, Stage};
use bible_lookup::{pretty_print, search_book, search_chapter, search_verse};

fn lines(text: &[&str]) -> Vec<String> {
    text.iter().map(|l| l.to_string()).collect()
}

fn document() -> Vec<String> {
    lines(&[
        "THE BOOK OF GENESIS",
        "CHAPTER 1",
        "1 In the beginning God created the heaven and the earth.",
        "2 And the earth was without form, and void.",
        "3 And God said, Let there be light: and there was light.",
        "",
        "CHAPTER 2",
        "1 Thus the heavens and the earth were finished.",
        "",
        "THE BOOK OF EXODUS",
        "CHAPTER 1",
        "1 Now these are the names of the children of Israel.",
        "",
        "THE BOOK OF PSALMS",
        "PSALM 23",
        "1 The LORD is my shepherd; I shall not want.",
    ])
}

fn s(x: &str) -> String {
    x.to_string()
}

fn table() -> AbbreviationTable {
    let mut t = AbbreviationTable::new();
    t.insert(&s("gen"), &s("Genesis"));
    t.insert(&s("ps"), &s("Psalms"));
    t
}

#[test]
fn verse_three_of_three_lines() {
    let mut c = DocumentCursor::new(lines(&[
        "1 In the beginning...",
        "2 And the earth...",
        "3 And God said, Let there be light.",
    ]));
    assert_eq!(search_verse(&mut c, &s("3")), "And God said, Let there be light.");
}

#[test]
fn book_found_from_start_then_its_chapter() {
    let mut c = DocumentCursor::new(document());
    assert!(search_book(&mut c, &s("EXODUS")));
    assert!(search_chapter(&mut c, &s("1")));
    assert_eq!(search_verse(&mut c, &s("1")), "Now these are the names of the children of Israel.");
}

#[test]
fn book_compared_without_case_or_white_space() {
    let mut c = DocumentCursor::new(lines(&["  the Book of Genesis  ", "Chapter 1", "1 Text."]));
    assert!(search_book(&mut c, &s("genesis")));
    assert!(search_chapter(&mut c, &s("1")));
}

#[test]
fn absent_book_is_not_found() {
    let mut c = DocumentCursor::new(document());
    assert!(!search_book(&mut c, &s("JUDE")));
    assert!(c.next_line().is_none());
}

#[test]
fn book_header_needs_exact_name() {
    assert!(is_book_header("THE BOOK OF GENESIS", "GENESIS"));
    assert!(!is_book_header("THE BOOK OF GENESIS AGAIN", "GENESIS"));
    assert!(!is_book_header("THE BOOK OFXGENESIS", "GENESIS"));
    assert!(!is_book_header("THE BOOK OF", "GENESIS"));
}

#[test]
fn chapter_stays_within_its_book() {
    let mut c = DocumentCursor::new(lines(&[
        "THE BOOK OF A",
        "1 a without chapters",
        "THE BOOK OF B",
        "CHAPTER 1",
        "1 b text",
    ]));
    assert!(search_book(&mut c, &s("A")));
    let mark = c.save_position();
    assert!(!search_chapter(&mut c, &s("1")));
    c.restore(mark);
    assert!(!search_chapter(&mut c, &s("1")));
}

#[test]
fn chapter_of_first_book_not_second() {
    let mut c = DocumentCursor::new(document());
    assert!(search_book(&mut c, &s("GENESIS")));
    assert!(search_chapter(&mut c, &s("1")));
    assert_eq!(
        search_verse(&mut c, &s("1")),
        "In the beginning God created the heaven and the earth."
    );
}

#[test]
fn chapter_numbers_compared_as_text() {
    let mut c = DocumentCursor::new(document());
    assert!(search_book(&mut c, &s("GENESIS")));
    let mark = c.save_position();
    assert!(!search_chapter(&mut c, &s("01")));
    c.restore(mark);
    assert!(search_chapter(&mut c, &s("2")));
}

#[test]
fn psalm_headers_count_as_chapters() {
    assert!(is_chapter_header("PSALM 23", "23"));
    assert!(is_chapter_header("CHAPTER 4 OF THE BOOK", "4"));
    assert!(!is_chapter_header("CHAPTER", "4"));
    assert!(!is_chapter_header("VERSE 4", "4"));
    assert!(!is_chapter_header("CHAPTERS 4", "4"));
}

#[test]
fn verse_scan_stops_at_blank_line() {
    let mut c = DocumentCursor::new(document());
    assert!(search_book(&mut c, &s("GENESIS")));
    assert!(search_chapter(&mut c, &s("1")));
    assert_eq!(search_verse(&mut c, &s("4")), "");
}

#[test]
fn verse_scan_stops_at_next_chapter() {
    let mut c = DocumentCursor::new(lines(&["CHAPTER 1", "1 one", "CHAPTER 2", "7 seven"]));
    assert!(search_chapter(&mut c, &s("1")));
    assert_eq!(search_verse(&mut c, &s("7")), "");
    assert!(is_chapter_end("PSALM 2"));
    assert!(is_chapter_end("THE BOOK OF RUTH"));
    assert!(!is_chapter_end("7 SEVEN"));
}

#[test]
fn verse_line_without_text() {
    assert_eq!(verse_in_line("5", "5"), Some(s("")));
    assert_eq!(verse_in_line("5 Text  ", "5"), Some(s("Text")));
    assert_eq!(verse_in_line("6 Text", "5"), None);
}

#[test]
fn abbreviation_expands_before_book_search() {
    let mut t = AbbreviationTable::new();
    t.insert(&s("GEN"), &s("GENESIS"));
    assert_eq!(t.resolve(&s("gen")), "GENESIS");
    assert_eq!(t.resolve(&s("EXODUS")), "EXODUS");
    let mut session = Session::new(document(), t);
    assert_eq!(session.step(&s("gen\n")), Action::BookFound { replaced: true });
    assert_eq!(session.book(), "GENESIS");
    assert_eq!(session.stage(), Stage::Chapter);
}

#[test]
fn later_abbreviation_replaces_earlier() {
    let mut t = AbbreviationTable::new();
    t.insert(&s("ex"), &s("Exit"));
    t.insert(&s("EX"), &s("Exodus"));
    assert_eq!(t.get(&s("EX")), Some(s("Exodus")));
    assert_eq!(t.get(&s("ex")), None);
}

#[test]
fn table_from_delimited_text() {
    let t = AbbreviationTable::from_csv("Gen,Genesis\nEx,Exodus\n").unwrap();
    assert_eq!(t.get(&s("GEN")), Some(s("Genesis")));
    assert_eq!(t.get(&s("EX")), Some(s("Exodus")));
    assert_eq!(t.resolve(&s("gen")), "GENESIS");
}

#[test]
fn table_rejects_short_record() {
    assert_eq!(
        AbbreviationTable::from_csv("Gen\nEx\n").err(),
        Some(TableError::MissingField { record: 0 })
    );
}

#[test]
fn table_rejects_uneven_records() {
    assert_eq!(AbbreviationTable::from_csv("Gen,Genesis\nEx\n").err(), Some(TableError::Malformed));
}

#[test]
fn quit_at_every_stage() {
    for stage_inputs in [vec![], vec!["GENESIS"], vec!["GENESIS", "1"], vec!["GENESIS", "1", "3"]] {
        let mut session = Session::new(document(), table());
        for i in stage_inputs {
            session.step(&s(i));
        }
        assert_eq!(session.step(&s("please exit now")), Action::Quit);
        assert_eq!(session.stage(), Stage::Finished);
    }
    assert!(quit_requested("QUITTING"));
    assert!(!quit_requested("EXODUS"));
}

#[test]
fn reset_at_chapter_asks_for_book() {
    let mut session = Session::new(document(), table());
    assert_eq!(session.step(&s("Genesis")), Action::BookFound { replaced: false });
    assert_eq!(session.step(&s("reset")), Action::Restart);
    assert_eq!(session.stage(), Stage::Book);
    assert_eq!(session.book(), "");
    assert_eq!(session.chapter(), "");
    assert_eq!(session.verse(), "");
}

#[test]
fn full_lookup_and_another() {
    let mut session = Session::new(document(), table());
    assert_eq!(session.step(&s("ps")), Action::BookFound { replaced: true });
    assert_eq!(session.step(&s("22")), Action::ChapterMissing);
    assert_eq!(session.stage(), Stage::Chapter);
    assert_eq!(session.step(&s("23")), Action::ChapterFound);
    assert_eq!(session.step(&s("2")), Action::VerseMissing);
    assert_eq!(
        session.step(&s("1")),
        Action::VerseFound { output: s("PSALMS 23:1 The LORD is my shepherd; I shall not want.") }
    );
    assert_eq!(session.stage(), Stage::Another);
    assert_eq!(session.step(&s("yes")), Action::Another);
    assert_eq!(session.stage(), Stage::Book);
    assert_eq!(session.step(&s("JUDE")), Action::BookMissing { replaced: false });
}

#[test]
fn declining_another_ends() {
    let mut session = Session::new(document(), table());
    session.step(&s("GENESIS"));
    session.step(&s("2"));
    session.step(&s("1"));
    assert_eq!(session.step(&s("")), Action::Quit);
    assert_eq!(session.stage(), Stage::Finished);
    assert_eq!(session.step(&s("y")), Action::Quit);
}

#[test]
fn reset_at_verse_asks_for_book() {
    let mut session = Session::new(document(), table());
    session.step(&s("GENESIS"));
    session.step(&s("1"));
    assert_eq!(session.step(&s(" Reset ")), Action::Restart);
    assert_eq!(session.stage(), Stage::Book);
}

#[test]
fn short_output_is_unwrapped() {
    let out = pretty_print(&s("GENESIS"), &s("1"), &s("3"), &s("And God said, Let there be light."));
    assert_eq!(out, "GENESIS 1:3 And God said, Let there be light.");
}

#[test]
fn long_output_wraps_at_spaces() {
    let word = "abcdefghi";
    let text: Vec<&str> = std::iter::repeat(word).take(20).collect();
    let text = text.join(" ");
    assert!(text.len() >= 190);
    let out = pretty_print(&s("BOOK"), &s("1"), &s("2"), &text);
    let original = format!("BOOK 1:2 {}", text);
    assert_eq!(out.len(), original.len());
    assert!(out.contains('\n'));
    for line in out.split('\n') {
        assert!(line.chars().count() <= 80);
    }
    assert_eq!(out.replace('\n', " "), original);
    let first = out.split('\n').next().unwrap();
    assert_eq!(first, "BOOK 1:2 abcdefghi abcdefghi abcdefghi abcdefghi abcdefghi abcdefghi abcdefghi");
}

#[test]
fn exactly_eighty_characters_stay_on_one_line() {
    let text = "x".repeat(80 - "B 1:1 ".len());
    let out = pretty_print(&s("B"), &s("1"), &s("1"), &text);
    assert_eq!(out.chars().count(), 80);
    assert!(!out.contains('\n'));
}

#[test]
fn word_wider_than_a_line_is_not_split() {
    let long = "y".repeat(100);
    let text = format!("{} tail", long);
    let out = pretty_print(&s("B"), &s("1"), &s("1"), &text);
    assert_eq!(out, format!("B 1:1\n{}\ntail", long));
    let out = pretty_print(&s("B"), &s("1"), &s("1"), &long);
    assert_eq!(out, format!("B 1:1\n{}", long));
}

#[test]
fn cursor_saves_and_restores() {
    let mut c = DocumentCursor::new(lines(&["a", "b", "c"]));
    assert_eq!(c.len(), 3);
    assert_eq!(c.next_line(), Some(s("a")));
    let p = c.save_position();
    assert_eq!(c.next_line(), Some(s("b")));
    assert_eq!(c.next_line(), Some(s("c")));
    assert_eq!(c.next_line(), None);
    c.restore(p);
    assert_eq!(c.next_line(), Some(s("b")));
    c.rewind();
    assert_eq!(c.next_line(), Some(s("a")));
}
