//! Renders a found verse as `BOOK CHAPTER:VERSE TEXT`, wrapped so that lines
//! break only at spaces.
use vstd::prelude::*;
use crate::text::{chars_of, string_of};

verus! {

/// The widest line the formatter aims for.
pub const WIDTH: usize = 80;

/// The unwrapped rendering of a reference and its text.
pub open spec fn composed(
    book: Seq<char>,
    chapter: Seq<char>,
    verse: Seq<char>,
    text: Seq<char>,
) -> Seq<char> {
    book + seq![' '] + chapter + seq![':'] + verse + seq![' '] + text
}

/// The last space in `s` at an index in `lo..=hi`, or -1 when there is none.
pub open spec fn space_back(s: Seq<char>, lo: int, hi: int) -> int
    decreases hi - lo + 1,
{
    if hi < lo {
        -1
    } else if s[hi] == ' ' {
        hi
    } else {
        space_back(s, lo, hi - 1)
    }
}

/// The first space in `s` at an index from `i` on, or -1 when there is none.
pub open spec fn space_fwd(s: Seq<char>, i: int) -> int
    decreases s.len() - i,
{
    if i >= s.len() {
        -1
    } else if s[i] == ' ' {
        i
    } else {
        space_fwd(s, i + 1)
    }
}

/// Where the line that starts at `start` is broken: the last space within the
/// next `WIDTH + 1` characters, or failing that the first space after them.
pub open spec fn break_at(s: Seq<char>, start: int) -> int {
    if space_back(s, start, start + WIDTH) >= 0 {
        space_back(s, start, start + WIDTH)
    } else {
        space_fwd(s, start + WIDTH + 1)
    }
}

/// `s` wrapped from index `start` on: while more than `WIDTH` characters are
/// left, the space at the break point becomes a line break.
pub open spec fn wrap_from(s: Seq<char>, start: int) -> Seq<char>
    decreases s.len() - start,
{
    if start < 0 || s.len() - start <= WIDTH {
        s
    } else {
        let k = break_at(s, start);
        if start <= k < s.len() {
            wrap_from(s.update(k, '\n'), k + 1)
        } else {
            s
        }
    }
}

/// No character in `s[i..j]` is `c`.
pub open spec fn free_of(s: Seq<char>, i: int, j: int, c: char) -> bool {
    forall|k: int| i <= k < j ==> s[k] != c
}

/// Every run of `s` without the character `c` is at most `n` long.
pub open spec fn runs_within(s: Seq<char>, c: char, n: int) -> bool {
    forall|i: int, j: int| 0 <= i <= j <= s.len() && #[trigger] free_of(s, i, j, c) ==> j - i <= n
}

/// `w` is `s` with some spaces turned into line breaks, and nothing else changed.
pub open spec fn breaks_spaces_only(s: Seq<char>, w: Seq<char>) -> bool {
    &&& w.len() == s.len()
    &&& forall|i: int| 0 <= i < s.len() ==> #[trigger] w[i] == s[i] || (s[i] == ' ' && w[i] == '\n')
}

/// `w` with each line break read as a space.
pub open spec fn rejoined(w: Seq<char>) -> Seq<char> {
    w.map_values(|c: char| if c == '\n' { ' ' } else { c })
}

proof fn lemma_space_back(s: Seq<char>, lo: int, hi: int)
    requires
        0 <= lo,
        hi < s.len(),
    ensures
        space_back(s, lo, hi) == -1 ==> free_of(s, lo, hi + 1, ' '),
        space_back(s, lo, hi) != -1 ==> lo <= space_back(s, lo, hi) <= hi && s[space_back(
            s,
            lo,
            hi,
        )] == ' ',
    decreases hi - lo + 1,
{
    if hi >= lo && s[hi] != ' ' {
        lemma_space_back(s, lo, hi - 1);
    }
}

proof fn lemma_space_fwd(s: Seq<char>, i: int)
    requires
        0 <= i,
    ensures
        space_fwd(s, i) != -1 ==> i <= space_fwd(s, i) < s.len() && s[space_fwd(s, i)] == ' ',
    decreases s.len() - i,
{
    if i < s.len() && s[i] != ' ' {
        lemma_space_fwd(s, i + 1);
    }
}

/// Wrapping from `start` only turns spaces at `start` or later into line
/// breaks; when no word from `start` on is wider than `WIDTH`, and every line
/// before `start` fits, every line of the result fits.
proof fn lemma_wrap_from(s: Seq<char>, start: int)
    requires
        0 <= start <= s.len(),
        start == 0 || s[start - 1] == '\n',
    ensures
        breaks_spaces_only(s, wrap_from(s, start)),
        (forall|i: int, j: int|
            0 <= i <= j <= start && #[trigger] free_of(s, i, j, '\n') ==> j - i <= WIDTH)
            && (forall|i: int, j: int|
            start <= i <= j <= s.len() && #[trigger] free_of(s, i, j, ' ') ==> j - i <= WIDTH)
            ==> runs_within(wrap_from(s, start), '\n', WIDTH as int),
    decreases s.len() - start,
{
    if s.len() - start <= WIDTH {
        assert forall|i: int, j: int|
            0 <= i <= j <= s.len() && #[trigger] free_of(s, i, j, '\n') && (forall|a: int, b: int|
                0 <= a <= b <= start && #[trigger] free_of(s, a, b, '\n') ==> b - a <= WIDTH) implies j
            - i <= WIDTH by {
            if i < start && j > start {
                assert(s[start - 1] == '\n');
            } else if j <= start {
                assert(free_of(s, i, j, '\n'));
            }
        }
    } else {
        let k = break_at(s, start);
        lemma_space_back(s, start, start + WIDTH);
        lemma_space_fwd(s, start + WIDTH + 1);
        if start <= k < s.len() {
            let t = s.update(k, '\n');
            lemma_wrap_from(t, k + 1);
            let w = wrap_from(t, k + 1);
            assert(breaks_spaces_only(s, w)) by {
                assert forall|i: int| 0 <= i < s.len() implies #[trigger] w[i] == s[i] || (s[i]
                    == ' ' && w[i] == '\n') by {
                    assert(w[i] == t[i] || (t[i] == ' ' && w[i] == '\n'));
                }
            }
            if (forall|i: int, j: int|
                0 <= i <= j <= start && #[trigger] free_of(s, i, j, '\n') ==> j - i <= WIDTH) && (
            forall|i: int, j: int|
                start <= i <= j <= s.len() && #[trigger] free_of(s, i, j, ' ') ==> j - i <= WIDTH) {
                assert(space_back(s, start, start + WIDTH) != -1) by {
                    if space_back(s, start, start + WIDTH) == -1 {
                        assert(free_of(s, start, start + WIDTH + 1, ' '));
                    }
                }
                assert forall|i: int, j: int|
                    0 <= i <= j <= k + 1 && #[trigger] free_of(t, i, j, '\n') implies j - i
                    <= WIDTH by {
                    if i <= k && k < j {
                        assert(t[k] == '\n');
                    } else if i < start && start <= j {
                        assert(t[start - 1] == '\n');
                    } else if j <= start {
                        assert forall|m: int| i <= m < j implies s[m] != '\n' by {
                            assert(t[m] != '\n');
                        }
                        assert(free_of(s, i, j, '\n'));
                    }
                }
                assert forall|i: int, j: int|
                    k + 1 <= i <= j <= t.len() && #[trigger] free_of(t, i, j, ' ') implies j - i
                    <= WIDTH by {
                    assert forall|m: int| i <= m < j implies s[m] != ' ' by {
                        assert(t[m] == s[m]);
                    }
                    assert(free_of(s, i, j, ' '));
                }
            }
        }
    }
}

/// Composes `BOOK CHAPTER:VERSE TEXT` and wraps it: while more than `WIDTH`
/// characters are left after the last break, the last space within the next
/// `WIDTH + 1` becomes a line break (or, where a word is wider than that, the
/// first space after it). No word is ever split, and the text is kept: reading
/// each line break as a space gives the composed line back. When no word is
/// wider than `WIDTH`, no line is either.
pub fn pretty_print(book: &String, chapter: &String, verse: &String, verse_result: &String) -> (r:
    String)
    ensures
        r@ == wrap_from(composed(book@, chapter@, verse@, verse_result@), 0),
        breaks_spaces_only(composed(book@, chapter@, verse@, verse_result@), r@),
        !composed(book@, chapter@, verse@, verse_result@).contains('\n') ==> rejoined(r@)
            == composed(book@, chapter@, verse@, verse_result@),
        runs_within(composed(book@, chapter@, verse@, verse_result@), ' ', WIDTH as int)
            ==> runs_within(r@, '\n', WIDTH as int),
{
    let ghost c = composed(book@, chapter@, verse@, verse_result@);
    let mut out = chars_of(book.as_str());
    out.push(' ');
    out.append(&mut chars_of(chapter.as_str()));
    out.push(':');
    out.append(&mut chars_of(verse.as_str()));
    out.push(' ');
    out.append(&mut chars_of(verse_result.as_str()));
    assert(out@ =~= c);
    let mut start: usize = 0;
    let mut finished = false;
    while !finished && out.len() - start > WIDTH
        invariant
            start <= out.len(),
            !finished ==> wrap_from(out@, start as int) == wrap_from(c, 0),
            finished ==> out@ == wrap_from(c, 0),
        decreases out.len() - start + if finished {
            0int
        } else {
            1int
        },
    {
        let mut k: usize = start + WIDTH;
        while k > start && out[k] != ' '
            invariant
                start <= k <= start + WIDTH < out.len(),
                space_back(out@, start as int, k as int) == space_back(
                    out@,
                    start as int,
                    start + WIDTH,
                ),
            decreases k,
        {
            k = k - 1;
        }
        if out[k] != ' ' {
            assert(space_back(out@, start as int, start as int - 1) == -1);
            k = start + WIDTH + 1;
            while k < out.len() && out[k] != ' '
                invariant
                    start + WIDTH + 1 <= k <= out.len(),
                    space_fwd(out@, k as int) == space_fwd(out@, start + WIDTH + 1),
                decreases out.len() - k,
            {
                k = k + 1;
            }
        }
        if k == out.len() {
            finished = true;
        } else {
            out.set(k, '\n');
            start = k + 1;
        }
    }
    proof {
        lemma_wrap_from(c, 0);
        let r = wrap_from(c, 0);
        if !c.contains('\n') {
            assert forall|i: int| 0 <= i < c.len() implies rejoined(r)[i] == c[i] by {
                assert(r[i] == c[i] || (c[i] == ' ' && r[i] == '\n'));
                if c[i] == '\n' {
                    assert(c.contains('\n'));
                }
            }
            assert(rejoined(r) =~= c);
        }
    }
    string_of(&out)
}

} // verus!
