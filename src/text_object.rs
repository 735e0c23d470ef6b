//! An editable text buffer addressed by (row, column) cursors, stored in a rope.
//! A buffer starts read-only and is promoted once to a writable one.
use crate::text_spec::{
    col_of, in_text, is_alnum, is_white_space, lemma_count_breaks_take,
    lemma_line_start_bounds, line_start, line_text, num_lines, offset_of, remove_range, row_of,
    scan_backward, scan_forward, visible_len, first_break, word_start_at,
};
use crate::cursor::Cursor;
use ropey::Rope;
use std::marker::PhantomData;
use vstd::prelude::*;

verus! {

#[verifier::external_type_specification]
#[verifier::external_body]
pub struct ExRope(Rope);

/// The characters that a rope holds, in order.
pub uninterp spec fn rope_chars(r: Rope) -> Seq<char>;

/// Relies on ropey::Rope::from_str: the rope holds the characters of `s`.
#[verifier::external_body]
fn rope_from_str(s: &str) -> (r: Rope)
    ensures
        rope_chars(r) == s@,
{
    Rope::from_str(s)
}

/// Relies on ropey::Rope::len_chars: the number of characters held.
#[verifier::external_body]
fn rope_len_chars(r: &Rope) -> (n: usize)
    ensures
        n == rope_chars(*r).len(),
{
    r.len_chars()
}

/// Relies on ropey::Rope::len_lines: line breaks plus one; with only the
/// line-feed break enabled, that is the count of `'\n'` plus one.
#[verifier::external_body]
fn rope_len_lines(r: &Rope) -> (n: usize)
    ensures
        n == num_lines(rope_chars(*r)),
{
    r.len_lines()
}

/// Relies on ropey::Rope::line_to_char: the index of the first character of a
/// line, or the length for the line one past the end; panics beyond that.
#[verifier::external_body]
fn rope_line_to_char(r: &Rope, line: usize) -> (n: usize)
    requires
        line <= num_lines(rope_chars(*r)),
    ensures
        n == line_start(rope_chars(*r), line as nat),
{
    r.line_to_char(line)
}

/// Relies on ropey::Rope::char_to_line: the number of line breaks before the
/// given character; panics past one beyond the end.
#[verifier::external_body]
fn rope_char_to_line(r: &Rope, idx: usize) -> (n: usize)
    requires
        idx <= rope_chars(*r).len(),
    ensures
        n == row_of(rope_chars(*r), idx as nat),
{
    r.char_to_line(idx)
}

/// Relies on ropey::Rope::char: the character at an index; panics past the end.
#[verifier::external_body]
fn rope_char(r: &Rope, idx: usize) -> (c: char)
    requires
        idx < rope_chars(*r).len(),
    ensures
        c == rope_chars(*r)[idx as int],
{
    r.char(idx)
}

/// Relies on ropey::Rope::line: the slice of one line, terminator included;
/// panics for a line index at or past `len_lines`.
#[verifier::external_body]
fn rope_line(r: &Rope, line: usize) -> (s: String)
    requires
        line < num_lines(rope_chars(*r)),
    ensures
        s@ == line_text(rope_chars(*r), line as nat),
{
    r.line(line).to_string()
}

/// Relies on ropey::Rope::insert_char: inserts one character at an index;
/// panics past the end.
#[verifier::external_body]
fn rope_insert_char(r: &mut Rope, idx: usize, c: char)
    requires
        idx <= rope_chars(*old(r)).len(),
    ensures
        rope_chars(*final(r)) == rope_chars(*old(r)).insert(idx as int, c),
{
    r.insert_char(idx, c)
}

/// Relies on ropey::Rope::try_remove: removes `start..end` when
/// `start <= end <= len_chars`, and otherwise fails and leaves the rope alone.
#[verifier::external_body]
fn rope_try_remove(r: &mut Rope, start: usize, end: usize) -> (ok: bool)
    ensures
        ok == (start <= end && end <= rope_chars(*old(r)).len()),
        ok ==> rope_chars(*final(r)) == remove_range(
            rope_chars(*old(r)),
            start as int,
            end as int,
        ),
        !ok ==> rope_chars(*final(r)) == rope_chars(*old(r)),
{
    r.try_remove(start..end).is_ok()
}

/// Relies on the `Display` impl of ropey::Rope: all characters, in order.
#[verifier::external_body]
fn rope_to_string(r: &Rope) -> (s: String)
    ensures
        s@ == rope_chars(*r),
{
    r.to_string()
}

/// Relies on char::is_whitespace: the Unicode `White_Space` property.
#[verifier::external_body]
fn char_is_whitespace(c: char) -> (r: bool)
    ensures
        r == is_white_space(c),
{
    c.is_whitespace()
}

/// Relies on char::is_alphanumeric (Unicode `Alphabetic` or `Numeric`); among
/// ASCII characters these are the letters and digits.
#[verifier::external_body]
fn char_is_alphanumeric(c: char) -> (r: bool)
    ensures
        r == is_alnum(c),
        (c as u32) < 128 ==> (r <==> (('a' <= c && c <= 'z') || ('A' <= c && c <= 'Z') || ('0'
            <= c && c <= '9'))),
{
    c.is_alphanumeric()
}

/// Marker of a buffer that can only be read.
pub struct Readonly;

/// Marker of a buffer that can be edited.
pub struct Write;

/// A text buffer; `State` is `Readonly` or `Write`.
pub struct TextObject<State> {
    content: Rope,
    state: PhantomData<State>,
}

impl<State> View for TextObject<State> {
    type V = Seq<char>;

    closed spec fn view(&self) -> Seq<char> {
        rope_chars(self.content)
    }
}

impl<State> Default for TextObject<State> {
    fn default() -> (r: Self)
        ensures
            r@ == Seq::<char>::empty(),
    {
        proof {
            reveal_strlit("");
        }
        TextObject { content: rope_from_str(""), state: PhantomData }
    }
}

impl TextObject<Readonly> {
    pub fn from(content: &str) -> (r: TextObject<Readonly>)
        ensures
            r@ == content@,
    {
        TextObject { content: rope_from_str(content), state: PhantomData }
    }

    pub fn with_write(self) -> (r: TextObject<Write>)
        ensures
            r@ == self@,
    {
        TextObject { content: self.content, state: PhantomData }
    }
}

impl<State> TextObject<State> {
    /// The whole content as one string.
    pub fn to_string(&self) -> (s: String)
        ensures
            s@ == self@,
    {
        rope_to_string(&self.content)
    }

    /// Flat offset of a cursor, when it designates a place in the text.
    fn cursor_offset(&self, cursor: &Cursor) -> (r: Option<usize>)
        ensures
            self@.len() <= usize::MAX,
            r == (if in_text(self@, *cursor) {
                Some(offset_of(self@, *cursor) as usize)
            } else {
                None
            }),
    {
        let len = rope_len_chars(&self.content);
        let lines = rope_len_lines(&self.content);
        if cursor.row >= lines {
            return None;
        }
        let start = rope_line_to_char(&self.content, cursor.row);
        proof {
            lemma_line_start_bounds(self@, cursor.row as nat);
        }
        if cursor.col > len - start {
            None
        } else {
            Some(start + cursor.col)
        }
    }

    /// Row and column of a flat offset.
    fn position_of(&self, idx: usize) -> (r: (usize, usize))
        requires
            idx <= self@.len(),
        ensures
            r.0 == col_of(self@, idx as nat),
            r.1 == row_of(self@, idx as nat),
    {
        let row = rope_char_to_line(&self.content, idx);
        proof {
            lemma_count_breaks_take(self@, idx as int);
        }
        let start = rope_line_to_char(&self.content, row);
        (idx - start, row)
    }
}

impl TextObject<Write> {
    /// Inserts `c` where the cursor points; a cursor outside the text changes nothing.
    pub fn insert_char(&mut self, c: char, cursor: &Cursor)
        ensures
            in_text(old(self)@, *cursor) ==> final(self)@ == old(self)@.insert(
                offset_of(old(self)@, *cursor) as int,
                c,
            ),
            !in_text(old(self)@, *cursor) ==> final(self)@ == old(self)@,
    {
        if let Some(offset) = self.cursor_offset(cursor) {
            rope_insert_char(&mut self.content, offset, c);
        }
    }

    /// Like `erase_previous_char`, but does nothing at the start of a line: it
    /// removes one character and never joins a line to the one above.
    pub fn erase_backwards_up_to_line_start(&mut self, cursor: &Cursor)
        ensures
            cursor.col > 0 && in_text(old(self)@, *cursor) ==> final(self)@ == remove_range(
                old(self)@,
                offset_of(old(self)@, *cursor) - 1,
                offset_of(old(self)@, *cursor) as int,
            ),
            cursor.col == 0 || !in_text(old(self)@, *cursor) ==> final(self)@ == old(self)@,
    {
        if cursor.col == 0 {
            return;
        }
        self.erase_previous_char(cursor);
    }

    /// Removes the character before the cursor; nothing at the start of the
    /// text or for a cursor outside it.
    pub fn erase_previous_char(&mut self, cursor: &Cursor)
        ensures
            in_text(old(self)@, *cursor) && offset_of(old(self)@, *cursor) > 0 ==> final(self)@
                == remove_range(
                old(self)@,
                offset_of(old(self)@, *cursor) - 1,
                offset_of(old(self)@, *cursor) as int,
            ),
            !in_text(old(self)@, *cursor) || offset_of(old(self)@, *cursor) == 0
                ==> final(self)@ == old(self)@,
    {
        if let Some(offset) = self.cursor_offset(cursor) {
            if offset > 0 {
                rope_try_remove(&mut self.content, offset - 1, offset);
            }
        }
    }

    /// Removes the character under the cursor; nothing at the end of the text
    /// or for a cursor outside it.
    pub fn erase_current_char(&mut self, cursor: &Cursor)
        ensures
            in_text(old(self)@, *cursor) && offset_of(old(self)@, *cursor) < old(self)@.len()
                ==> final(self)@ == remove_range(
                old(self)@,
                offset_of(old(self)@, *cursor) as int,
                offset_of(old(self)@, *cursor) + 1 as int,
            ),
            !in_text(old(self)@, *cursor) || offset_of(old(self)@, *cursor) == old(self)@.len()
                ==> final(self)@ == old(self)@,
    {
        if let Some(offset) = self.cursor_offset(cursor) {
            let len = rope_len_chars(&self.content);
            if offset < len {
                rope_try_remove(&mut self.content, offset, offset + 1);
            }
        }
    }

    /// The line under the cursor, terminator included; `None` past the last line.
    pub fn current_line(&self, cursor: &Cursor) -> (r: Option<String>)
        ensures
            cursor.row < num_lines(self@) ==> r is Some && r->0@ == line_text(
                self@,
                cursor.row as nat,
            ),
            cursor.row >= num_lines(self@) ==> r is None,
    {
        let lines = rope_len_lines(&self.content);
        if cursor.row < lines {
            Some(rope_line(&self.content, cursor.row))
        } else {
            None
        }
    }

    /// Index just past the visible part of a line, where its first `'\r'` or
    /// `'\n'` stands.
    fn visible_end(&self, line: usize) -> (r: usize)
        requires
            line < num_lines(self@),
        ensures
            line_start(self@, line as nat) <= r,
            r == line_start(self@, line as nat) + visible_len(line_text(self@, line as nat)),
    {
        let _lines = rope_len_lines(&self.content);
        let start = rope_line_to_char(&self.content, line);
        let end = rope_line_to_char(&self.content, line + 1);
        proof {
            lemma_line_start_bounds(self@, line as nat);
            lemma_line_start_bounds(self@, (line + 1) as nat);
        }
        let ghost l = line_text(self@, line as nat);
        let mut i: usize = start;
        let mut stop = false;
        while i < end && !stop
            invariant
                start <= i <= end,
                end <= self@.len(),
                start == line_start(self@, line as nat),
                end == line_start(self@, line as nat + 1),
                l == self@.subrange(start as int, end as int),
                first_break(l, 0) == first_break(l, (i - start) as nat),
                stop ==> i < end && first_break(l, (i - start) as nat) == i - start,
            decreases end - i, if stop { 0int } else { 1int },
        {
            let c = rope_char(&self.content, i);
            assert(l[i - start] == c);
            if c == '\r' || c == '\n' {
                stop = true;
            } else {
                i = i + 1;
            }
        }
        i
    }

    /// Number of characters of a line before its first `'\r'` or `'\n'`; 0 past
    /// the last line.
    pub fn line_len(&self, line: usize) -> (r: usize)
        ensures
            line < num_lines(self@) ==> r == visible_len(line_text(self@, line as nat)),
            line >= num_lines(self@) ==> r == 0,
    {
        let lines = rope_len_lines(&self.content);
        if line >= lines {
            return 0;
        }
        let start = rope_line_to_char(&self.content, line);
        let end = self.visible_end(line);
        end - start
    }

    /// Clears the line from the cursor to its end, keeping its terminator.
    /// Nothing happens past the last line or when the cursor stands beyond the
    /// end of the line.
    pub fn erase_until_eol(&mut self, cursor: &Cursor)
        ensures
            ({
                let s = old(self)@;
                let start = line_start(s, cursor.row as nat);
                let vis = visible_len(line_text(s, cursor.row as nat));
                if cursor.row < num_lines(s) && cursor.col <= vis {
                    final(self)@ == remove_range(s, start + cursor.col, (start + vis) as int)
                } else {
                    final(self)@ == s
                }
            }),
    {
        let lines = rope_len_lines(&self.content);
        if cursor.row >= lines {
            return;
        }
        let start = rope_line_to_char(&self.content, cursor.row);
        let end = self.visible_end(cursor.row);
        proof {
            lemma_line_start_bounds(self@, cursor.row as nat);
            lemma_line_start_bounds(self@, (cursor.row + 1) as nat);
            crate::text_spec::lemma_line_len_excludes_terminators(self@, cursor.row as nat);
        }
        if cursor.col > end - start {
            return;
        }
        rope_try_remove(&mut self.content, start + cursor.col, end);
    }

    /// Word-forward motion: crosses the first run of whitespace at or after the
    /// cursor and returns (column, row) of the character after it, or of the
    /// end of the text. A cursor outside the text is returned as it is.
    pub fn find_char_after_whitespace(&self, cursor: &Cursor) -> (r: (usize, usize))
        ensures
            in_text(self@, *cursor) ==> ({
                let t = scan_forward(self@, offset_of(self@, *cursor), false, true);
                r == (col_of(self@, t) as usize, row_of(self@, t) as usize)
            }),
            !in_text(self@, *cursor) ==> r == (cursor.col, cursor.row),
    {
        self.find_after(cursor, true)
    }

    /// Like `find_char_after_whitespace`, with every character that is not
    /// alphanumeric acting as a separator.
    pub fn find_char_after_separator(&self, cursor: &Cursor) -> (r: (usize, usize))
        ensures
            in_text(self@, *cursor) ==> ({
                let t = scan_forward(self@, offset_of(self@, *cursor), false, false);
                r == (col_of(self@, t) as usize, row_of(self@, t) as usize)
            }),
            !in_text(self@, *cursor) ==> r == (cursor.col, cursor.row),
    {
        self.find_after(cursor, false)
    }

    fn find_after(&self, cursor: &Cursor, ws: bool) -> (r: (usize, usize))
        ensures
            in_text(self@, *cursor) ==> ({
                let t = scan_forward(self@, offset_of(self@, *cursor), false, ws);
                r == (col_of(self@, t) as usize, row_of(self@, t) as usize)
            }),
            !in_text(self@, *cursor) ==> r == (cursor.col, cursor.row),
    {
        let offset = match self.cursor_offset(cursor) {
            Some(o) => o,
            None => return (cursor.col, cursor.row),
        };
        let n = rope_len_chars(&self.content);
        let mut i: usize = offset;
        let mut crossed = false;
        let mut stop = false;
        while i < n && !stop
            invariant
                offset <= i <= n,
                n == self@.len(),
                scan_forward(self@, offset as nat, false, ws) == scan_forward(
                    self@,
                    i as nat,
                    crossed,
                    ws,
                ),
                stop ==> i < n && scan_forward(self@, i as nat, crossed, ws) == i,
            decreases n - i, if stop { 0int } else { 1int },
        {
            let c = rope_char(&self.content, i);
            let sep = if ws {
                char_is_whitespace(c)
            } else {
                !char_is_alphanumeric(c)
            };
            if crossed && !sep {
                stop = true;
            } else {
                crossed = crossed || sep;
                i = i + 1;
            }
        }
        self.position_of(i)
    }

    /// Word-backward motion: from the character before the cursor, walks left
    /// across a run of whitespace to the previous word and returns (column, row)
    /// of that word's first character, or of the start of the text. A cursor
    /// outside the text is returned as it is.
    pub fn find_char_before_whitespace(&self, cursor: &Cursor) -> (r: (usize, usize))
        ensures
            in_text(self@, *cursor) ==> ({
                let o = offset_of(self@, *cursor);
                let t = word_start_at(
                    self@,
                    scan_backward(self@, if o > 0 { (o - 1) as nat } else { 0 }, false),
                );
                r == (col_of(self@, t) as usize, row_of(self@, t) as usize)
            }),
            !in_text(self@, *cursor) ==> r == (cursor.col, cursor.row),
    {
        let offset = match self.cursor_offset(cursor) {
            Some(o) => o,
            None => return (cursor.col, cursor.row),
        };
        let ghost start: nat = if offset > 0 { (offset - 1) as nat } else { 0 };
        let mut index: usize = if offset > 0 { offset - 1 } else { 0 };
        let mut crossed = false;
        let mut stop = false;
        while index > 0 && !stop
            invariant
                index <= start,
                start < self@.len() || start == 0,
                scan_backward(self@, start, false) == scan_backward(self@, index as nat, crossed),
                stop ==> scan_backward(self@, index as nat, crossed) == index,
            decreases index, if stop { 0int } else { 1int },
        {
            let c = rope_char(&self.content, index);
            let w = char_is_whitespace(c);
            if crossed && !w {
                stop = true;
            } else {
                crossed = crossed || w;
                index = index - 1;
            }
        }
        let ghost last = index as nat;
        let mut word = index;
        let mut at_start = false;
        while word > 0 && !at_start
            invariant
                word <= last,
                last < self@.len() || last == 0,
                word_start_at(self@, last) == word_start_at(self@, word as nat),
                at_start ==> word_start_at(self@, word as nat) == word,
            decreases word, if at_start { 0int } else { 1int },
        {
            let c = rope_char(&self.content, word - 1);
            if char_is_whitespace(c) {
                at_start = true;
            } else {
                word = word - 1;
            }
        }
        self.position_of(word)
    }

    /// Number of lines, counting an empty last line after a final terminator.
    pub fn len_lines(&self) -> (r: usize)
        ensures
            r == num_lines(self@),
    {
        rope_len_lines(&self.content)
    }
}

/// Whitespace, or one of `.`, `/`, `'` and `"`.
pub fn is_separator(c: char) -> (r: bool)
    ensures
        r == (is_white_space(c) || c == '.' || c == '/' || c == '\'' || c == '"'),
{
    char_is_whitespace(c) || c == '.' || c == '/' || c == '\'' || c == '"'
}

} // verus!
