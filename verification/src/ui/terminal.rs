use vstd::prelude::*;
use vstd::string::StringExecFns;
use crate::ui::rect::Rect2;
use crate::ui::region::WidgetPlacementInfo;
use crate::ui::text::{
    char_count, skip_chars, string_pop, string_push, strings_view, substring, take_chars,
};

verus! {

/// What a terminal widget is built from.
pub struct TerminalInfo {
    pub placement: WidgetPlacementInfo,
    pub font_size: u32,
    pub contents: Vec<String>,
}

/// Text console: an input line with a cursor, the lines entered so far, and a
/// history to recall them.
pub struct TerminalWidget {
    pub font_size: u32,
    pub contents: Vec<String>,
    pub input: String,
    history: Vec<String>,
    history_cursor: Option<usize>,
    pub cursor: usize,
}

/// The smaller of `a` and `b`.
pub open spec fn min_int(a: int, b: int) -> int {
    if a <= b { a } else { b }
}

/// `n` is `o` after `enter` returned the line `line`.
pub open spec fn enter_relation(o: TerminalWidget, n: TerminalWidget, line: Seq<char>) -> bool {
    &&& line == o.input_chars()
    &&& n.input_chars() == Seq::<char>::empty()
    &&& n.lines() == o.lines().push(o.input_chars())
    &&& n.history() == o.history().push(o.input_chars())
    &&& n.history_cursor() is None
    &&& n.cursor_pos() == 0
    &&& n.font_size_of() == o.font_size_of()
}

/// `n` is `o` after `prev`.
pub open spec fn prev_relation(o: TerminalWidget, n: TerminalWidget) -> bool {
    &&& n.history() == o.history()
    &&& n.lines() == o.lines()
    &&& n.font_size_of() == o.font_size_of()
    &&& {
        let h = o.history();
        match o.history_cursor() {
            Some(i) => if i >= 1 {
                &&& n.history_cursor() == Some((i - 1) as usize)
                &&& n.input_chars() == h[i - 1]
                &&& n.cursor_pos() == h[i - 1].len()
            } else {
                &&& n.history_cursor() == o.history_cursor()
                &&& n.input_chars() == o.input_chars()
                &&& n.cursor_pos() == o.cursor_pos()
            },
            None => if h.len() > 0 {
                &&& n.history_cursor() == Some((h.len() - 1) as usize)
                &&& n.input_chars() == h.last()
                &&& n.cursor_pos() == h.last().len()
            } else {
                &&& n.history_cursor() is None
                &&& n.input_chars() == o.input_chars()
                &&& n.cursor_pos() == o.cursor_pos()
            },
        }
    }
}

/// `n` is `o` after `next`.
pub open spec fn next_relation(o: TerminalWidget, n: TerminalWidget) -> bool {
    &&& n.history() == o.history()
    &&& n.lines() == o.lines()
    &&& n.font_size_of() == o.font_size_of()
    &&& {
        let h = o.history();
        let hc = o.history_cursor();
        if hc is Some && hc->0 + 1 < h.len() {
            &&& n.history_cursor() == Some((hc->0 + 1) as usize)
            &&& n.input_chars() == h[hc->0 + 1]
            &&& n.cursor_pos() == h[hc->0 + 1].len()
        } else {
            &&& n.history_cursor() == o.history_cursor()
            &&& n.input_chars() == o.input_chars()
            &&& n.cursor_pos() == o.cursor_pos()
        }
    }
}

/// The input line after inserting `c` at `cursor`.
pub open spec fn inserted(s: Seq<char>, cursor: int, c: char) -> Seq<char> {
    take_chars(s, cursor).push(c) + skip_chars(s, cursor)
}

/// The input line after removing the character before `cursor`.
pub open spec fn backspaced(s: Seq<char>, cursor: int) -> Seq<char> {
    take_chars(s, if cursor >= 1 { cursor - 1 } else { 0 }) + skip_chars(s, cursor)
}

/// A line entered and then recalled with `prev` comes back whole, with the
/// cursor at its end.
pub proof fn law_enter_then_prev_recalls(a: TerminalWidget, b: TerminalWidget, c: TerminalWidget, line: Seq<char>)
    requires
        enter_relation(a, b, line),
        prev_relation(b, c),
    ensures
        c.input_chars() == a.input_chars(),
        c.cursor_pos() == a.input_chars().len(),
        c.history_cursor() == Some((a.history().len()) as usize),
{
}

/// `prev` then `next` comes back to the recalled entry, when there was an
/// earlier one.
pub proof fn law_prev_then_next_returns(a: TerminalWidget, b: TerminalWidget, c: TerminalWidget)
    requires
        a.wf(),
        a.history_cursor() matches Some(i) && i >= 1,
        prev_relation(a, b),
        next_relation(b, c),
    ensures
        c.history_cursor() == a.history_cursor(),
        c.input_chars() == a.history()[a.history_cursor()->0 as int],
{
}

/// Typing a character and then backspace gives the input line and the
/// cursor back.
pub proof fn law_type_then_backspace_restores(s: Seq<char>, cursor: int, c: char)
    requires
        0 <= cursor <= s.len(),
    ensures
        backspaced(inserted(s, cursor, c), cursor + 1) == s,
{
    let t = inserted(s, cursor, c);
    assert(take_chars(t, cursor) =~= s.take(cursor));
    assert(skip_chars(t, cursor + 1) =~= s.skip(cursor));
    assert(s.take(cursor) + s.skip(cursor) =~= s);
}

/// A cursor inside the input line stays inside it after typing, moving left
/// or right, or backspace.
pub proof fn law_cursor_stays_in_line(s: Seq<char>, cursor: int, c: char)
    requires
        0 <= cursor <= s.len(),
    ensures
        cursor + 1 <= inserted(s, cursor, c).len(),
        min_int(cursor + 1, s.len() as int) <= s.len(),
        (if cursor >= 1 { cursor - 1 } else { 0 }) <= backspaced(s, cursor).len(),
{
}

impl TerminalWidget {
    /// Characters of the input line.
    pub closed spec fn input_chars(&self) -> Seq<char> {
        self.input@
    }

    /// Cursor position in the input line, in characters.
    pub closed spec fn cursor_pos(&self) -> usize {
        self.cursor
    }

    /// The lines shown above the input line.
    pub closed spec fn lines(&self) -> Seq<Seq<char>> {
        strings_view(self.contents@)
    }

    pub closed spec fn font_size_of(&self) -> u32 {
        self.font_size
    }

    /// The lines entered so far, oldest first.
    pub closed spec fn history(&self) -> Seq<Seq<char>> {
        strings_view(self.history@)
    }

    /// The history entry shown in the input line, if one was recalled.
    pub closed spec fn history_cursor(&self) -> Option<usize> {
        self.history_cursor
    }

    /// The recalled history entry, if any, is one of the entries.
    pub open spec fn wf(&self) -> bool {
        self.history_cursor() matches Some(i) ==> i < self.history().len()
    }

    /// Whether the recalled history entry, if any, is one of the entries.
    pub fn history_is_consistent(&self) -> (b: bool)
        ensures
            b == self.wf(),
    {
        match self.history_cursor {
            Some(i) => {
                assert(self.history().len() == self.history@.len());
                i < self.history.len()
            },
            None => true,
        }
    }

    pub fn new(info: &TerminalInfo) -> (r: Self)
        ensures
            r.wf(),
            r.font_size_of() == info.font_size,
            r.lines() == strings_view(info.contents@),
            r.input_chars() == Seq::<char>::empty(),
            r.history() == Seq::<Seq<char>>::empty(),
            r.history_cursor() is None,
            r.cursor_pos() == 0,
    {
        let r = Self {
            font_size: info.font_size,
            contents: clone_strings(&info.contents),
            input: String::new(),
            history: Vec::new(),
            history_cursor: None,
            cursor: 0,
        };
        assert(r.history() =~= Seq::<Seq<char>>::empty());
        r
    }

    /// Moves the input line to the contents and the history, empties it, and
    /// returns it.
    pub fn enter(&mut self) -> (r: String)
        ensures
            final(self).wf(),
            enter_relation(*old(self), *final(self), r@),
    {
        let mut input = String::new();
        std::mem::swap(&mut input, &mut self.input);
        self.contents.push(input.clone());
        self.history.push(input.clone());
        self.history_cursor = None;
        self.cursor = 0;
        proof {
            assert(strings_view(self.contents@) =~= strings_view(old(self).contents@).push(input@));
            assert(self.history() =~= old(self).history().push(input@));
        }
        input
    }

    /// Recalls the history entry before the recalled one, or the last entry
    /// when none is recalled; the cursor goes to the end of the input.
    pub fn prev(&mut self)
        requires
            old(self).wf(),
        ensures
            final(self).wf(),
            prev_relation(*old(self), *final(self)),
    {
        match self.history_cursor {
            Some(idx) => {
                if idx >= 1 {
                    let prev_idx = idx - 1;
                    if prev_idx < self.history.len() {
                        self.history_cursor = Some(prev_idx);
                        self.input = self.history[prev_idx].clone();
                        self.cursor = char_count(&self.input);
                    }
                }
            },
            None => {
                if self.history.len() > 0 {
                    let last = self.history.len() - 1;
                    self.history_cursor = Some(last);
                    self.input = self.history[last].clone();
                    self.cursor = char_count(&self.input);
                }
            },
        }
    }

    /// Recalls the history entry after the recalled one, if there is one.
    pub fn next(&mut self)
        requires
            old(self).wf(),
        ensures
            final(self).wf(),
            next_relation(*old(self), *final(self)),
    {
        if let Some(idx) = self.history_cursor {
            assert(self.history().len() == self.history@.len());
            assert(idx < self.history.len());
            let next_idx = idx + 1;
            if next_idx < self.history.len() {
                self.history_cursor = Some(next_idx);
                self.input = self.history[next_idx].clone();
                self.cursor = char_count(&self.input);
            }
        }
    }

    /// Inserts `c` at the cursor and moves the cursor past it.
    pub fn add_input(&mut self, c: char)
        requires
            old(self).cursor_pos() < usize::MAX,
        ensures
            final(self).input_chars() == inserted(old(self).input_chars(), old(self).cursor_pos() as int, c),
            final(self).cursor_pos() == old(self).cursor_pos() + 1,
            final(self).history() == old(self).history(),
            final(self).history_cursor() == old(self).history_cursor(),
            final(self).lines() == old(self).lines(),
            final(self).font_size_of() == old(self).font_size_of(),
    {
        let len = char_count(&self.input);
        let k = if self.cursor <= len { self.cursor } else { len };
        let mut s = substring(&self.input, 0, k);
        string_push(&mut s, c);
        let right = substring(&self.input, k, len);
        s.append(right.as_str());
        proof {
            assert(old(self).input@.subrange(0, k as int) =~= take_chars(old(self).input@, old(self).cursor as int));
            assert(old(self).input@.subrange(k as int, len as int) =~= skip_chars(old(self).input@, old(self).cursor as int));
        }
        self.input = s;
        self.cursor = self.cursor + 1;
    }

    /// Removes the character before the cursor (backspace).
    pub fn remove_left(&mut self)
        ensures
            final(self).input_chars() == backspaced(old(self).input_chars(), old(self).cursor_pos() as int),
            final(self).cursor_pos() == (if old(self).cursor_pos() >= 1 { old(self).cursor_pos() - 1 } else { 0 }),
            final(self).history() == old(self).history(),
            final(self).history_cursor() == old(self).history_cursor(),
            final(self).lines() == old(self).lines(),
            final(self).font_size_of() == old(self).font_size_of(),
    {
        let len = char_count(&self.input);
        let k = if self.cursor <= len { self.cursor } else { len };
        let right = substring(&self.input, k, len);
        let cursor = if self.cursor >= 1 { self.cursor - 1 } else { 0 };
        let k2 = if cursor <= len { cursor } else { len };
        let mut s = substring(&self.input, 0, k2);
        s.append(right.as_str());
        proof {
            assert(old(self).input@.subrange(0, k2 as int) =~= take_chars(old(self).input@, cursor as int));
            assert(old(self).input@.subrange(k as int, len as int) =~= skip_chars(old(self).input@, old(self).cursor as int));
        }
        self.input = s;
        self.cursor = cursor;
    }

    /// Removes the character after the cursor (delete).
    pub fn remove_right(&mut self)
        requires
            old(self).cursor_pos() < usize::MAX,
        ensures
            final(self).input_chars() == take_chars(old(self).input_chars(), old(self).cursor_pos() as int)
                + skip_chars(
                old(self).input_chars(),
                min_int(old(self).cursor_pos() + 1, old(self).input_chars().len() as int),
            ),
            final(self).cursor_pos() == old(self).cursor_pos(),
            final(self).history() == old(self).history(),
            final(self).history_cursor() == old(self).history_cursor(),
            final(self).lines() == old(self).lines(),
            final(self).font_size_of() == old(self).font_size_of(),
    {
        let len = char_count(&self.input);
        let k = if self.cursor <= len { self.cursor } else { len };
        let mut s = substring(&self.input, 0, k);
        let cursor = if self.cursor + 1 <= len { self.cursor + 1 } else { len };
        let right = substring(&self.input, cursor, len);
        s.append(right.as_str());
        proof {
            assert(old(self).input@.subrange(0, k as int) =~= take_chars(old(self).input@, old(self).cursor as int));
            assert(old(self).input@.subrange(cursor as int, len as int) =~= skip_chars(old(self).input@, cursor as int));
        }
        self.input = s;
    }

    /// Appends `c` to the input line; the cursor does not move.
    pub fn push_input(&mut self, c: char)
        ensures
            final(self).input_chars() == old(self).input_chars().push(c),
            final(self).cursor_pos() == old(self).cursor_pos(),
            final(self).history() == old(self).history(),
            final(self).history_cursor() == old(self).history_cursor(),
            final(self).lines() == old(self).lines(),
            final(self).font_size_of() == old(self).font_size_of(),
    {
        string_push(&mut self.input, c);
    }

    /// Removes the last character of the input line, if any; the cursor does
    /// not move.
    pub fn pop_input(&mut self)
        ensures
            final(self).input_chars() == if old(self).input_chars().len() > 0 {
                old(self).input_chars().drop_last()
            } else {
                old(self).input_chars()
            },
            final(self).cursor_pos() == old(self).cursor_pos(),
            final(self).history() == old(self).history(),
            final(self).history_cursor() == old(self).history_cursor(),
            final(self).lines() == old(self).lines(),
            final(self).font_size_of() == old(self).font_size_of(),
    {
        let _ = string_pop(&mut self.input);
    }

    /// Moves the cursor one character left, stopping at the start.
    pub fn left(&mut self)
        ensures
            final(self).cursor_pos() == (if old(self).cursor_pos() >= 1 { old(self).cursor_pos() - 1 } else { 0 }),
            final(self).input_chars() == old(self).input_chars(),
            final(self).history() == old(self).history(),
            final(self).history_cursor() == old(self).history_cursor(),
            final(self).lines() == old(self).lines(),
            final(self).font_size_of() == old(self).font_size_of(),
    {
        self.cursor = if self.cursor >= 1 { self.cursor - 1 } else { 0 };
    }

    /// Moves the cursor one character right, stopping at the end of the input.
    pub fn right(&mut self)
        requires
            old(self).cursor_pos() < usize::MAX,
        ensures
            final(self).cursor_pos() == min_int(old(self).cursor_pos() + 1, old(self).input_chars().len() as int),
            final(self).input_chars() == old(self).input_chars(),
            final(self).history() == old(self).history(),
            final(self).history_cursor() == old(self).history_cursor(),
            final(self).lines() == old(self).lines(),
            final(self).font_size_of() == old(self).font_size_of(),
    {
        let len = char_count(&self.input);
        self.cursor = if self.cursor + 1 <= len { self.cursor + 1 } else { len };
    }
}

/// A copy of every string of `v`.
pub fn clone_strings(v: &Vec<String>) -> (r: Vec<String>)
    ensures
        strings_view(r@) == strings_view(v@),
{
    let mut r: Vec<String> = Vec::new();
    let mut i: usize = 0;
    while i < v.len()
        invariant
            i <= v.len(),
            strings_view(r@) == strings_view(v@.take(i as int)),
        decreases v.len() - i,
    {
        r.push(v[i].clone());
        proof {
            assert(strings_view(v@.take(i + 1)) =~= strings_view(v@.take(i as int)).push(v@[i as int]@));
            assert(strings_view(r@) =~= strings_view(v@.take(i as int)).push(v@[i as int]@));
        }
        i = i + 1;
    }
    proof {
        assert(v@.take(v.len() as int) =~= v@);
    }
    r
}

/// A line of text to draw: the left and top of its row, the row width and
/// height, and the text.
pub struct TextRow {
    pub x: i32,
    pub y: i64,
    pub width: i32,
    pub height: u32,
    pub text: String,
}

/// What a terminal draws: a panel in its colour, then rows of text over it.
pub struct TerminalLayout {
    pub panel: Rect2,
    pub rows: Vec<TextRow>,
}

/// How many rows of `row_height` fit in a region `region_height` tall above
/// one row.
pub open spec fn terminal_line_count(region_height: int, row_height: int) -> int {
    if region_height - row_height > 0 {
        (region_height - row_height) / row_height
    } else {
        0
    }
}

/// What a terminal draws in `rect`, its clipped rectangle, for a region
/// `region_height` tall: a panel over the whole of `rect`, then rows as wide
/// as `rect` and `font_size + 2` high, going up from its bottom: first the
/// input line after `"> "`, then the lines entered, newest first, as many as
/// fit in the region above the input line.
pub fn render_terminal(terminal: &TerminalWidget, rect: &Rect2, region_height: i32) -> (r: TerminalLayout)
    requires
        terminal.font_size_of() <= u32::MAX - 2,
    ensures
        r.panel == *rect,
        ({
            let rows = r.rows@;
            let h = terminal.font_size_of() + 2;
            let start = rect.min.y + rect.size.y - h;
            let lines = terminal.lines();
            let m = min_int(terminal_line_count(region_height as int, h), lines.len() as int);
            &&& rows.len() == 1 + m
            &&& rows[0].y == start
            &&& rows[0].text@ == seq!['>', ' '] + terminal.input_chars()
            &&& forall|k: int|
                0 <= k <= m ==> {
                    &&& (#[trigger] rows[k]).x == rect.min.x
                    &&& rows[k].width == rect.size.x
                    &&& rows[k].height == h
                }
            &&& forall|k: int|
                0 <= k < m ==> {
                    &&& (#[trigger] rows[k + 1]).y == start - (k + 1) * h
                    &&& rows[k + 1].text@ == lines[lines.len() - 1 - k]
                }
        }),
{
    let h: u32 = terminal.font_size + 2;
    let hi = h as i64;
    let start: i64 = rect.min.y as i64 + rect.size.y as i64 - hi;
    let prompt = "> ";
    proof {
        reveal_strlit("> ");
    }
    let mut input_text = String::from_str(prompt);
    input_text.append(terminal.input.as_str());
    let mut rows: Vec<TextRow> = Vec::new();
    rows.push(TextRow { x: rect.min.x, y: start, width: rect.size.x, height: h, text: input_text });
    let contents_height: i64 = region_height as i64 - hi;
    let count: i64 = if contents_height > 0 { contents_height / hi } else { 0 };
    proof {
        assert(count * hi <= contents_height || count == 0) by (nonlinear_arith)
            requires
                contents_height > 0 ==> count == contents_height / hi,
                contents_height <= 0 ==> count == 0,
                hi >= 2,
        ;
    }
    let n = terminal.contents.len();
    let ghost lines = terminal.lines();
    assert(lines.len() == n);
    let mut k: usize = 0;
    let mut y: i64 = start;
    while k < n && (k as i64) < count
        invariant
            k <= n,
            n == terminal.contents@.len(),
            lines == terminal.lines(),
            lines.len() == n,
            hi == h as i64,
            2 <= hi,
            0 <= count,
            count * hi <= 2147483648,
            k <= count,
            y == start - k * hi,
            start == rect.min.y + rect.size.y - h,
            -0x2_0000_0000 <= start <= 0x2_0000_0000,
            rows@.len() == 1 + k,
            rows@[0].y == start,
            rows@[0].text@ == seq!['>', ' '] + terminal.input_chars(),
            forall|j: int|
                0 <= j <= k ==> {
                    &&& (#[trigger] rows@[j]).x == rect.min.x
                    &&& rows@[j].width == rect.size.x
                    &&& rows@[j].height == h
                },
            forall|j: int|
                0 <= j < k ==> {
                    &&& (#[trigger] rows@[j + 1]).y == start - (j + 1) * h
                    &&& rows@[j + 1].text@ == lines[lines.len() - 1 - j]
                },
        decreases n - k,
    {
        proof {
            assert((k + 1) * hi <= count * hi) by (nonlinear_arith)
                requires
                    k + 1 <= count,
                    hi >= 0,
            ;
            assert((k + 1) * hi == k * hi + hi) by (nonlinear_arith);
        }
        y = y - hi;
        let line = terminal.contents[n - 1 - k].clone();
        rows.push(TextRow { x: rect.min.x, y, width: rect.size.x, height: h, text: line });
        k = k + 1;
    }
    proof {
        assert(k == min_int(terminal_line_count(region_height as int, h as int), lines.len() as int));
    }
    TerminalLayout { panel: *rect, rows }
}

} // verus!
