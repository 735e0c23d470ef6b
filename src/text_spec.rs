//! Mathematical model of line-structured text: lines are separated by `'\n'`,
//! and a line keeps its terminator as part of its content.
use crate::cursor::Cursor;
use vstd::prelude::*;

verus! {

/// Number of line feeds in `s`.
pub open spec fn count_breaks(s: Seq<char>) -> nat
    decreases s.len(),
{
    if s.len() == 0 {
        0
    } else {
        count_breaks(s.drop_first()) + if s[0] == '\n' { 1nat } else { 0nat }
    }
}

/// Number of lines of `s`: one more than its line feeds.
pub open spec fn num_lines(s: Seq<char>) -> nat {
    count_breaks(s) + 1
}

/// Index of the first character of line `line`; for the line one past the
/// last, the length of `s`.
pub open spec fn line_start(s: Seq<char>, line: nat) -> nat
    decreases s.len(),
{
    if line == 0 || s.len() == 0 {
        0
    } else if s[0] == '\n' {
        1 + line_start(s.drop_first(), (line - 1) as nat)
    } else {
        1 + line_start(s.drop_first(), line)
    }
}

/// Content of line `line`, its terminator included.
pub open spec fn line_text(s: Seq<char>, line: nat) -> Seq<char> {
    s.subrange(line_start(s, line) as int, line_start(s, line + 1) as int)
}

/// Index of the first `'\r'` or `'\n'` of `line` at or after `i`; the length
/// of `line` if there is none.
pub open spec fn first_break(line: Seq<char>, i: nat) -> nat
    decreases line.len() - i,
{
    if i >= line.len() {
        line.len()
    } else if line[i as int] == '\r' || line[i as int] == '\n' {
        i
    } else {
        first_break(line, i + 1)
    }
}

/// Length of a line up to its first `'\r'` or `'\n'`.
pub open spec fn visible_len(line: Seq<char>) -> nat {
    first_break(line, 0)
}

/// Line on which the character at `idx` stands.
pub open spec fn row_of(s: Seq<char>, idx: nat) -> nat {
    count_breaks(s.take(idx as int))
}

/// Column of the character at `idx` within its line.
pub open spec fn col_of(s: Seq<char>, idx: nat) -> nat {
    (idx - line_start(s, row_of(s, idx))) as nat
}

/// Flat character offset that a cursor designates.
pub open spec fn offset_of(s: Seq<char>, c: Cursor) -> nat {
    line_start(s, c.row as nat) + c.col as nat
}

/// The cursor designates a place in the text (it may be the end).
pub open spec fn in_text(s: Seq<char>, c: Cursor) -> bool {
    c.row < num_lines(s) && offset_of(s, c) <= s.len()
}

/// `s` with the characters in `start..end` removed.
pub open spec fn remove_range(s: Seq<char>, start: int, end: int) -> Seq<char> {
    s.subrange(0, start) + s.subrange(end, s.len() as int)
}

/// Unicode `White_Space` property.
pub open spec fn is_white_space(c: char) -> bool {
    let u = c as u32;
    (0x9 <= u && u <= 0xd) || u == 0x20 || u == 0x85 || u == 0xa0 || u == 0x1680 || (0x2000
        <= u && u <= 0x200a) || u == 0x2028 || u == 0x2029 || u == 0x202f || u == 0x205f || u
        == 0x3000
}

/// Forward word scan from `i`: once a character of the separator class has been
/// crossed (`crossed`), the first character outside it; the text's length if none.
pub open spec fn scan_forward(s: Seq<char>, i: nat, crossed: bool, ws: bool) -> nat
    decreases s.len() - i,
{
    if i >= s.len() {
        s.len()
    } else {
        let sep = if ws { is_white_space(s[i as int]) } else { !is_alnum(s[i as int]) };
        if crossed && !sep {
            i
        } else {
            scan_forward(s, i + 1, crossed || sep, ws)
        }
    }
}

/// Backward whitespace scan from `i` down to 1: once whitespace has been crossed,
/// the first non-whitespace character; 0 if there is none.
pub open spec fn scan_backward(s: Seq<char>, i: nat, crossed: bool) -> nat
    decreases i,
{
    if i == 0 {
        0
    } else if crossed && !is_white_space(s[i as int]) {
        i
    } else {
        scan_backward(s, (i - 1) as nat, crossed || is_white_space(s[i as int]))
    }
}

/// Start of the word that holds the character at `j`: the greatest `i <= j`
/// that is 0 or follows whitespace.
pub open spec fn word_start_at(s: Seq<char>, j: nat) -> nat
    decreases j,
{
    if j == 0 || is_white_space(s[j - 1]) {
        j
    } else {
        word_start_at(s, (j - 1) as nat)
    }
}

/// What `char::is_alphanumeric` returns.
pub uninterp spec fn is_alnum(c: char) -> bool;

pub proof fn lemma_count_breaks_take(s: Seq<char>, i: int)
    requires
        0 <= i <= s.len(),
    ensures
        count_breaks(s.take(i)) <= count_breaks(s),
        line_start(s, count_breaks(s.take(i))) <= i,
    decreases s.len(),
{
    if i > 0 {
        let rest = s.drop_first();
        assert(s.take(i).drop_first() =~= rest.take(i - 1));
        lemma_count_breaks_take(rest, i - 1);
    }
}

pub proof fn lemma_line_start_bounds(s: Seq<char>, line: nat)
    ensures
        line_start(s, line) <= s.len(),
        line_start(s, line) <= line_start(s, line + 1),
    decreases s.len(),
{
    if line > 0 && s.len() > 0 {
        if s[0] == '\n' {
            lemma_line_start_bounds(s.drop_first(), (line - 1) as nat);
        } else {
            lemma_line_start_bounds(s.drop_first(), line);
        }
    } else if s.len() > 0 {
        lemma_line_start_bounds(s.drop_first(), 0);
    }
}

pub proof fn lemma_count_breaks_len(s: Seq<char>)
    ensures
        count_breaks(s) <= s.len(),
    decreases s.len(),
{
    if s.len() > 0 {
        lemma_count_breaks_len(s.drop_first());
    }
}

/// Inserting a character at a cursor and then erasing the character before the
/// position that follows it gives back the original text.
pub proof fn lemma_insert_then_erase_restores(s: Seq<char>, cursor: Cursor, ch: char)
    requires
        in_text(s, cursor),
        s.len() < usize::MAX,
    ensures
        ({
            let o = offset_of(s, cursor);
            let s1 = s.insert(o as int, ch);
            let next = Cursor {
                row: row_of(s1, o + 1) as usize,
                col: col_of(s1, o + 1) as usize,
            };
            in_text(s1, next) && offset_of(s1, next) == o + 1 && remove_range(
                s1,
                o as int,
                o + 1 as int,
            ) == s
        }),
{
    let o = offset_of(s, cursor);
    let s1 = s.insert(o as int, ch);
    lemma_count_breaks_take(s1, o + 1 as int);
    lemma_count_breaks_len(s1);
    assert(remove_range(s1, o as int, o + 1 as int) =~= s);
}

proof fn lemma_first_break(line: Seq<char>, i: nat)
    requires
        i <= line.len(),
    ensures
        i <= first_break(line, i) <= line.len(),
        forall|j: int|
            i <= j < first_break(line, i) ==> #[trigger] line[j] != '\r' && line[j] != '\n',
        first_break(line, i) < line.len() ==> line[first_break(line, i) as int] == '\r' || line[first_break(line, i) as int] == '\n',
    decreases line.len() - i,
{
    if i < line.len() && !(line[i as int] == '\r' || line[i as int] == '\n') {
        lemma_first_break(line, i + 1);
    }
}

/// The length of a line counts no `'\r'` or `'\n'`: it is the number of
/// characters before the first of them, or the whole line if it has none.
pub proof fn lemma_line_len_excludes_terminators(s: Seq<char>, line: nat)
    ensures
        ({
            let l = line_text(s, line);
            let r = visible_len(l);
            &&& r <= l.len()
            &&& forall|j: int| 0 <= j < r ==> #[trigger] l[j] != '\r' && l[j] != '\n'
            &&& r < l.len() ==> l[r as int] == '\r' || l[r as int] == '\n'
        }),
{
    lemma_first_break(line_text(s, line), 0);
}

/// A word starts at `o`: a character that is not whitespace, at the start of
/// the text or right after whitespace.
pub open spec fn is_word_start(s: Seq<char>, o: nat) -> bool {
    o < s.len() && !is_white_space(s[o as int]) && (o == 0 || is_white_space(s[o - 1]))
}

proof fn lemma_scan_forward_crossed(s: Seq<char>, i: nat)
    ensures
        i <= s.len() ==> i <= scan_forward(s, i, true, true) <= s.len(),
        forall|k: int|
            i <= k < scan_forward(s, i, true, true) ==> is_white_space(#[trigger] s[k]),
    decreases s.len() - i,
{
    if i < s.len() {
        lemma_scan_forward_crossed(s, i + 1);
    }
}

proof fn lemma_scan_forward_no_space(s: Seq<char>, i: nat)
    requires
        i <= s.len(),
        forall|k: int| i <= k < s.len() ==> !is_white_space(#[trigger] s[k]),
    ensures
        scan_forward(s, i, false, true) == s.len(),
    decreases s.len() - i,
{
    if i < s.len() {
        lemma_scan_forward_no_space(s, i + 1);
    }
}

proof fn lemma_scan_backward_bound(s: Seq<char>, i: nat, crossed: bool)
    ensures
        scan_backward(s, i, crossed) <= i,
    decreases i,
{
    if i > 0 {
        lemma_scan_backward_bound(s, (i - 1) as nat, crossed || is_white_space(s[i as int]));
    }
}

proof fn lemma_scan_backward_over_space(s: Seq<char>, o: nat, i: nat, crossed: bool)
    requires
        o < i,
        !is_white_space(s[o as int]),
        forall|k: int| o < k <= i ==> is_white_space(#[trigger] s[k]),
    ensures
        scan_backward(s, i, crossed) == o,
    decreases i,
{
    assert(scan_backward(s, i, crossed) == scan_backward(s, (i - 1) as nat, true));
    if i - 1 > o {
        lemma_scan_backward_over_space(s, o, (i - 1) as nat, true);
    } else {
        assert(scan_backward(s, o, true) == o);
    }
}

proof fn lemma_scan_backward_in_word(s: Seq<char>, o: nat, i: nat)
    requires
        o <= i,
        forall|k: int| o <= k <= i ==> !is_white_space(#[trigger] s[k]),
    ensures
        scan_backward(s, i, false) <= o,
    decreases i,
{
    if i > 0 {
        if i > o {
            lemma_scan_backward_in_word(s, o, (i - 1) as nat);
        } else {
            lemma_scan_backward_bound(s, (i - 1) as nat, false);
        }
    }
}

/// First whitespace at or after `i`, or the length of `s`.
proof fn lemma_first_space(s: Seq<char>, i: nat) -> (w: nat)
    requires
        i <= s.len(),
    ensures
        i <= w <= s.len(),
        forall|k: int| i <= k < w ==> !is_white_space(#[trigger] s[k]),
        w < s.len() ==> is_white_space(s[w as int]),
    decreases s.len() - i,
{
    if i == s.len() || is_white_space(s[i as int]) {
        i
    } else {
        lemma_first_space(s, i + 1)
    }
}

proof fn lemma_scan_forward_to_space(s: Seq<char>, i: nat, w: nat)
    requires
        i <= w < s.len(),
        is_white_space(s[w as int]),
        forall|k: int| i <= k < w ==> !is_white_space(#[trigger] s[k]),
    ensures
        scan_forward(s, i, false, true) == scan_forward(s, w + 1, true, true),
    decreases w - i,
{
    if i < w {
        lemma_scan_forward_to_space(s, i + 1, w);
    }
}

proof fn lemma_word_start_at(s: Seq<char>, o: nat, j: nat)
    requires
        o <= j < s.len(),
        o == 0 || is_white_space(s[o - 1]),
        forall|k: int| o <= k <= j ==> !is_white_space(#[trigger] s[k]),
    ensures
        word_start_at(s, j) == o,
    decreases j,
{
    if j > o {
        lemma_word_start_at(s, o, (j - 1) as nat);
    }
}

proof fn lemma_word_start_at_bound(s: Seq<char>, j: nat)
    ensures
        word_start_at(s, j) <= j,
    decreases j,
{
    if j > 0 {
        lemma_word_start_at_bound(s, (j - 1) as nat);
    }
}

/// Word-forward motion from the start of a word, followed by word-backward
/// motion from where it lands, never goes past that word start: it comes back
/// to it exactly when whitespace follows the word.
pub proof fn lemma_forward_then_backward(s: Seq<char>, o: nat)
    requires
        is_word_start(s, o),
    ensures
        ({
            let f = scan_forward(s, o, false, true);
            let b = word_start_at(s, scan_backward(s, if f > 0 { (f - 1) as nat } else { 0 }, false));
            &&& b <= o
            &&& (exists|k: int| o <= k < s.len() && is_white_space(#[trigger] s[k])) ==> b == o
        }),
{
    let w = lemma_first_space(s, o);
    let f = scan_forward(s, o, false, true);
    if w < s.len() {
        lemma_scan_forward_to_space(s, o, w);
        lemma_scan_forward_crossed(s, w + 1);
        assert(w > o);
        lemma_scan_backward_over_space(s, (w - 1) as nat, (f - 1) as nat, false);
        lemma_word_start_at(s, o, (w - 1) as nat);
    } else {
        lemma_scan_forward_no_space(s, o);
        lemma_scan_backward_in_word(s, o, (s.len() - 1) as nat);
        lemma_word_start_at_bound(s, scan_backward(s, (f - 1) as nat, false));
    }
}

} // verus!
