//! The editing session: the document's rows, the cursor, the scroll offsets
//! and the pane size, with the operations that edit, move and scroll.
use vstd::prelude::*;

use crate::row::{delete_at, expand_tabs, insert_at, render_column, Row};
use crate::text::string_of;
use crate::CursorPos;

verus! {

/// How many times quitting must be asked for while there are unsaved changes.
pub const KILO_QUIT_TIMES: usize = 3;

/// Most rows a document holds: every row index, and the one past the last
/// row, must fit a cursor coordinate.
pub const MAX_ROWS: usize = 65535;

/// Most characters a row holds, so that every column fits a cursor coordinate.
pub const MAX_LINE: usize = 65535;

/// The four cursor movements.
#[derive(Clone, Copy, Debug, PartialEq, Eq, Structural)]
pub enum EditorKey {
    ArrowUp,
    ArrowDown,
    ArrowLeft,
    ArrowRight,
}

/// The way a search steps through the rows.
#[derive(Clone, Copy, Debug, PartialEq, Eq, Structural)]
pub enum SearchDirection {
    Forward,
    Backward,
}

/// The mathematical state of an editing session.
pub struct EditorView {
    /// The characters of each row.
    pub rows: Seq<Seq<char>>,
    pub cx: int,
    pub cy: int,
    pub rowoff: int,
    pub coloff: int,
    /// Rows of text the pane shows.
    pub height: int,
    /// Columns the pane shows.
    pub width: int,
    pub render_x: int,
    pub dirty: int,
    pub quit_times: int,
    pub last_match: Option<int>,
    pub direction: SearchDirection,
    pub filename: Seq<char>,
}

/// A change counter after one more change; it stops at the largest `usize`.
pub open spec fn bump(d: int) -> int {
    if d < usize::MAX {
        d + 1
    } else {
        d
    }
}

/// The rows read from `lines`: a last line that is empty (the text after a
/// final newline) is not a row.
pub open spec fn loaded_rows(lines: Seq<Seq<char>>) -> Seq<Seq<char>> {
    if lines.len() > 0 && lines.last().len() == 0 {
        lines.drop_last()
    } else {
        lines
    }
}

impl EditorView {
    /// Length of row `y`, and 0 for the position past the last row.
    pub open spec fn row_len(self, y: int) -> int {
        if 0 <= y < self.rows.len() {
            self.rows[y].len() as int
        } else {
            0
        }
    }

    /// The cursor stands on a row or just past the last one, and never past
    /// the end of its row.
    pub open spec fn cursor_ok(self) -> bool {
        &&& 0 <= self.cy <= self.rows.len()
        &&& 0 <= self.cx <= self.row_len(self.cy)
    }

    /// The document fits the cursor's coordinates and the cursor is in bounds.
    pub open spec fn valid(self) -> bool {
        &&& self.rows.len() <= MAX_ROWS
        &&& self.height >= 1
        &&& self.width >= 1
        &&& forall|i: int| 0 <= i < self.rows.len() ==> #[trigger] self.rows[i].len() <= MAX_LINE
        &&& self.cursor_ok()
    }

    /// The same state with other rows and another change count.
    pub open spec fn with_rows(self, rows: Seq<Seq<char>>, dirty: int) -> EditorView {
        EditorView { rows, dirty, ..self }
    }

    /// The same state with the cursor at column `x` of row `y`.
    pub open spec fn with_cursor(self, x: int, y: int) -> EditorView {
        EditorView { cx: x, cy: y, ..self }
    }

    /// The state after one cursor movement. Left at the start of a row goes
    /// to the end of the row above; right at the end of a row goes to the
    /// start of the next; up stops at the first row and down at the position
    /// past the last. The column is then clamped to the length of the row.
    pub open spec fn moved(self, key: EditorKey) -> EditorView {
        let n = self.rows.len() as int;
        let (x, y) = match key {
            EditorKey::ArrowLeft => if self.cx != 0 {
                (self.cx - 1, self.cy)
            } else if self.cy > 0 {
                (self.row_len(self.cy - 1), self.cy - 1)
            } else {
                (self.cx, self.cy)
            },
            EditorKey::ArrowRight => if self.cy < n && self.cx < self.row_len(self.cy) {
                (self.cx + 1, self.cy)
            } else if self.cy < n && self.cx == self.row_len(self.cy) {
                (0, self.cy + 1)
            } else {
                (self.cx, self.cy)
            },
            EditorKey::ArrowUp => (self.cx, if self.cy > 0 { self.cy - 1 } else { 0 }),
            EditorKey::ArrowDown => (self.cx, if self.cy < n { self.cy + 1 } else { self.cy }),
        };
        self.with_cursor(if x < self.row_len(y) { x } else { self.row_len(y) }, y)
    }

    /// The state after the movements of `keys`, first to last.
    pub open spec fn after_moves(self, keys: Seq<EditorKey>) -> EditorView
        decreases keys.len(),
    {
        if keys.len() == 0 {
            self
        } else {
            self.after_moves(keys.drop_last()).moved(keys.last())
        }
    }

    /// The state after `k` times the same movement.
    pub open spec fn repeat_move(self, key: EditorKey, k: nat) -> EditorView
        decreases k,
    {
        if k == 0 {
            self
        } else {
            self.repeat_move(key, (k - 1) as nat).moved(key)
        }
    }

    /// Typing `c`: at the position past the last row a new empty row comes
    /// first; the character goes in at the cursor, which moves right. Where
    /// the document or the row is full, nothing changes.
    pub open spec fn inserted_char(self, c: char) -> EditorView {
        let n = self.rows.len() as int;
        if self.cy == n && n >= MAX_ROWS {
            self
        } else if self.cy < n && self.rows[self.cy].len() >= MAX_LINE {
            self
        } else {
            let rows = if self.cy == n {
                self.rows.push(Seq::empty())
            } else {
                self.rows
            };
            let dirty = if self.cy == n {
                bump(self.dirty)
            } else {
                self.dirty
            };
            EditorView {
                rows: rows.update(self.cy, insert_at(rows[self.cy], self.cx, c)),
                cx: self.cx + 1,
                dirty: bump(dirty),
                ..self
            }
        }
    }

    /// Backspace: nothing past the last row or at the very start; inside a
    /// row the character before the cursor goes; at the start of a row the
    /// row joins the one above, unless the joined row would be too long.
    pub open spec fn deleted_before(self) -> EditorView {
        let n = self.rows.len() as int;
        if self.cy == n || (self.cx == 0 && self.cy == 0) {
            self
        } else if self.cx > 0 {
            EditorView {
                rows: self.rows.update(self.cy, delete_at(self.rows[self.cy], self.cx - 1)),
                cx: self.cx - 1,
                dirty: bump(self.dirty),
                ..self
            }
        } else if self.rows[self.cy - 1].len() + self.rows[self.cy].len() > MAX_LINE {
            self
        } else {
            EditorView {
                rows: self.rows.update(self.cy - 1, self.rows[self.cy - 1] + self.rows[self.cy]).remove(
                    self.cy,
                ),
                cx: self.rows[self.cy - 1].len() as int,
                cy: self.cy - 1,
                dirty: bump(bump(self.dirty)),
                ..self
            }
        }
    }

    /// Enter: at column 0 an empty row goes in above the cursor's row;
    /// elsewhere the row is split at the cursor and its tail becomes the next
    /// row. The cursor goes to the start of the next row. Where the document
    /// is full, nothing changes.
    pub open spec fn new_line(self) -> EditorView {
        if self.rows.len() >= MAX_ROWS {
            self
        } else {
            let rows = if self.cx == 0 {
                self.rows.insert(self.cy, Seq::empty())
            } else {
                self.rows.update(self.cy, self.rows[self.cy].take(self.cx)).insert(
                    self.cy + 1,
                    self.rows[self.cy].skip(self.cx),
                )
            };
            EditorView { rows, cx: 0, cy: self.cy + 1, dirty: bump(self.dirty), ..self }
        }
    }

    /// The render column of the cursor, saturated at `u16::MAX`, and 0 past
    /// the last row.
    pub open spec fn cursor_render_x(self) -> int {
        if self.cy < self.rows.len() {
            let c = render_column(self.rows[self.cy], self.cx) as int;
            if c <= u16::MAX {
                c
            } else {
                u16::MAX as int
            }
        } else {
            0
        }
    }

    /// The offsets moved just as far as needed to bring the cursor into the
    /// pane.
    pub open spec fn scrolled(self) -> EditorView {
        let rx = self.cursor_render_x();
        let r1 = if self.cy < self.rowoff {
            self.cy
        } else {
            self.rowoff
        };
        let r2 = if self.cy >= r1 + self.height {
            self.cy - self.height + 1
        } else {
            r1
        };
        let c1 = if rx < self.coloff {
            rx
        } else {
            self.coloff
        };
        let c2 = if rx >= c1 + self.width {
            rx - self.width + 1
        } else {
            c1
        };
        EditorView { render_x: rx, rowoff: r2, coloff: c2, ..self }
    }
}

/// After a scroll the cursor's row is in the pane, on a pane of at least
/// one row.
pub proof fn lemma_scroll_shows_cursor_row(v: EditorView)
    requires
        v.height > 0,
    ensures
        v.scrolled().rowoff <= v.cy < v.scrolled().rowoff + v.height,
{
}

/// After a scroll the cursor's render column is in the pane, on a pane of
/// at least one column.
pub proof fn lemma_scroll_shows_cursor_column(v: EditorView)
    requires
        v.width > 0,
    ensures
        v.scrolled().coloff <= v.scrolled().render_x < v.scrolled().coloff + v.width,
{
}

/// One movement keeps the cursor in bounds.
pub proof fn lemma_move_keeps_cursor_ok(v: EditorView, key: EditorKey)
    requires
        v.cursor_ok(),
    ensures
        v.moved(key).cursor_ok(),
        v.moved(key).rows == v.rows,
{
}

/// After any sequence of movements the cursor is in bounds: never past the
/// end of its row, and at most one row past the last.
pub proof fn lemma_moves_keep_cursor_ok(v: EditorView, keys: Seq<EditorKey>)
    requires
        v.cursor_ok(),
    ensures
        v.after_moves(keys).cursor_ok(),
        v.after_moves(keys).rows == v.rows,
        v.after_moves(keys).cy < v.rows.len() ==> v.after_moves(keys).cx <= v.rows[v.after_moves(
            keys,
        ).cy].len(),
    decreases keys.len(),
{
    if keys.len() > 0 {
        lemma_moves_keep_cursor_ok(v, keys.drop_last());
        lemma_move_keeps_cursor_ok(v.after_moves(keys.drop_last()), keys.last());
    }
}

fn next_count(d: usize) -> (r: usize)
    ensures
        r == bump(d as int),
{
    if d < usize::MAX {
        d + 1
    } else {
        d
    }
}

/// An editing session: the document, the cursor, the scroll offsets and the
/// pane size, and the state of a search in progress.
pub struct Editor {
    pub(crate) cursor: CursorPos,
    pub(crate) rows: Vec<Row>,
    pub(crate) rowoff: u16,
    pub(crate) coloff: u16,
    pub(crate) screen_rows: u16,
    pub(crate) screen_cols: u16,
    pub(crate) filename: String,
    pub(crate) render_x: u16,
    pub(crate) dirty: usize,
    pub(crate) quit_times: usize,
    pub(crate) last_match: Option<usize>,
    pub(crate) direction: SearchDirection,
}

pub open spec fn opt_int(o: Option<usize>) -> Option<int> {
    match o {
        Some(v) => Some(v as int),
        None => None,
    }
}

impl View for Editor {
    type V = EditorView;

    open(crate) spec fn view(&self) -> EditorView {
        EditorView {
            rows: self.rows@.map_values(|r: Row| r@),
            cx: self.cursor.x as int,
            cy: self.cursor.y as int,
            rowoff: self.rowoff as int,
            coloff: self.coloff as int,
            height: self.screen_rows as int,
            width: self.screen_cols as int,
            render_x: self.render_x as int,
            dirty: self.dirty as int,
            quit_times: self.quit_times as int,
            last_match: opt_int(self.last_match),
            direction: self.direction,
            filename: self.filename@,
        }
    }
}

impl Editor {
    /// Every row holds its render.
    pub open(crate) spec fn rows_wf(&self) -> bool {
        forall|i: int| 0 <= i < self.rows@.len() ==> #[trigger] self.rows@[i].wf()
    }

    pub open spec fn wf(&self) -> bool {
        self.rows_wf() && self@.valid()
    }

    pub(crate) proof fn lemma_rows_view(&self)
        ensures
            self@.rows.len() == self.rows@.len(),
            forall|i: int| 0 <= i < self.rows@.len() ==> #[trigger] self@.rows[i] == self.rows@[i]@,
    {
    }

    /// A session on the rows read from `lines`, with the cursor at the start
    /// and nothing changed yet.
    pub fn build(lines: &Vec<String>, filename: String, screen_cols: u16, screen_rows: u16) -> (e:
        Editor)
        requires
            loaded_rows(lines@.map_values(|s: String| s@)).len() <= MAX_ROWS,
            screen_cols >= 1,
            screen_rows >= 1,
            forall|i: int| 0 <= i < lines@.len() ==> #[trigger] lines@[i]@.len() <= MAX_LINE,
        ensures
            e.wf(),
            e@.rows == loaded_rows(lines@.map_values(|s: String| s@)),
            e@.cx == 0,
            e@.cy == 0,
            e@.rowoff == 0,
            e@.coloff == 0,
            e@.render_x == 0,
            e@.height == screen_rows,
            e@.width == screen_cols,
            e@.dirty == 0,
            e@.quit_times == KILO_QUIT_TIMES,
            (e@.last_match is None),
            e@.direction == SearchDirection::Forward,
            e@.filename == filename@,
    {
        let ghost texts = lines@.map_values(|s: String| s@);
        let mut rows: Vec<Row> = Vec::new();
        let n = lines.len();
        let mut i: usize = 0;
        while i < n
            invariant
                n == lines@.len(),
                i <= n,
                texts == lines@.map_values(|s: String| s@),
                rows@.len() == i,
                forall|j: int| 0 <= j < i ==> (#[trigger] rows@[j])@ == texts[j] && rows@[j].wf(),
            decreases n - i,
        {
            let row = Row::new(lines[i].clone());
            rows.push(row);
            i = i + 1;
        }
        if n > 0 && rows[n - 1].len() == 0 {
            rows.pop();
        }
        let e = Editor {
            cursor: CursorPos { x: 0, y: 0 },
            rows,
            rowoff: 0,
            coloff: 0,
            screen_rows,
            screen_cols,
            filename,
            render_x: 0,
            dirty: 0,
            quit_times: KILO_QUIT_TIMES,
            last_match: None,
            direction: SearchDirection::Forward,
        };
        assert(e@.rows =~= loaded_rows(texts));
        e
    }

    /// A session on an empty document.
    pub fn new(screen_cols: u16, screen_rows: u16) -> (e: Editor)
        requires
            screen_cols >= 1,
            screen_rows >= 1,
        ensures
            e.wf(),
            e@.rows.len() == 0,
            e@.cx == 0,
            e@.cy == 0,
            e@.rowoff == 0,
            e@.coloff == 0,
            e@.render_x == 0,
            e@.height == screen_rows,
            e@.width == screen_cols,
            e@.dirty == 0,
            e@.quit_times == KILO_QUIT_TIMES,
            (e@.last_match is None),
            e@.direction == SearchDirection::Forward,
            e@.filename.len() == 0,
    {
        let lines: Vec<String> = Vec::new();
        let e = Editor::build(&lines, String::new(), screen_cols, screen_rows);
        assert(lines@.map_values(|s: String| s@) =~= Seq::<Seq<char>>::empty());
        e
    }

    /// One cursor movement.
    pub fn move_cursor(&mut self, key: EditorKey)
        requires
            old(self).wf(),
        ensures
            final(self).wf(),
            final(self)@ == old(self)@.moved(key),
    {
        let n = self.rows.len();
        let ghost v = self@;
        match key {
            EditorKey::ArrowLeft => {
                if self.cursor.x != 0 {
                    self.cursor.x = self.cursor.x - 1;
                } else if self.cursor.y > 0 {
                    self.cursor.y = self.cursor.y - 1;
                    self.cursor.x = self.rows[self.cursor.y as usize].len() as u16;
                }
            },
            EditorKey::ArrowRight => {
                let y = self.cursor.y as usize;
                if y < n {
                    if (self.cursor.x as usize) < self.rows[y].len() {
                        self.cursor.x = self.cursor.x + 1;
                    } else if (self.cursor.x as usize) == self.rows[y].len() {
                        self.cursor.y = self.cursor.y + 1;
                        self.cursor.x = 0;
                    }
                }
            },
            EditorKey::ArrowUp => {
                if self.cursor.y > 0 {
                    self.cursor.y = self.cursor.y - 1;
                }
            },
            EditorKey::ArrowDown => {
                if (self.cursor.y as usize) < n {
                    self.cursor.y = self.cursor.y + 1;
                }
            },
        }
        let y = self.cursor.y as usize;
        let rowlen = if y >= n {
            0
        } else {
            self.rows[y].len()
        };
        if self.cursor.x as usize > rowlen {
            self.cursor.x = rowlen as u16;
        }
        assert(self@ == v.moved(key));
    }

    /// Adds a row holding `s` at index `at`; nothing when `at` is past the
    /// position after the last row.
    fn insert_row(&mut self, at: usize, s: String)
        requires
            old(self).rows_wf(),
            old(self)@.rows.len() < MAX_ROWS,
            s@.len() <= MAX_LINE,
        ensures
            final(self).rows_wf(),
            final(self)@ == (if at <= old(self)@.rows.len() {
                old(self)@.with_rows(old(self)@.rows.insert(at as int, s@), bump(old(self)@.dirty))
            } else {
                old(self)@
            }),
    {
        if at > self.rows.len() {
            return;
        }
        let ghost old_rows = self.rows@;
        self.rows.insert(at, Row::new(s));
        self.dirty = next_count(self.dirty);
        assert(self.rows@.map_values(|r: Row| r@) =~= old_rows.map_values(|r: Row| r@).insert(
            at as int,
            s@,
        ));
    }

    /// Removes row `at` and hands back its characters; `None` when there is
    /// no such row.
    fn del_row(&mut self, at: usize) -> (removed: Option<String>)
        requires
            old(self).rows_wf(),
        ensures
            final(self).rows_wf(),
            at < old(self)@.rows.len() ==> (removed is Some) && removed->0@ == old(self)@.rows[at as int]
                && final(self)@ == old(self)@.with_rows(
                old(self)@.rows.remove(at as int),
                bump(old(self)@.dirty),
            ),
            at >= old(self)@.rows.len() ==> (removed is None) && final(self)@ == old(self)@,
    {
        if at >= self.rows.len() {
            None
        } else {
            let ghost old_rows = self.rows@;
            self.dirty = next_count(self.dirty);
            let row = self.rows.remove(at);
            assert(self.rows@.map_values(|r: Row| r@) =~= old_rows.map_values(|r: Row| r@).remove(
                at as int,
            ));
            Some(string_of(row.characters.as_slice()))
        }
    }

    /// Types `c` at the cursor.
    pub fn editor_insert_char(&mut self, c: char)
        requires
            old(self).wf(),
        ensures
            final(self).wf(),
            final(self)@ == old(self)@.inserted_char(c),
    {
        let ghost v = self@;
        let n = self.rows.len();
        let y = self.cursor.y as usize;
        if y == n && n >= MAX_ROWS {
            return;
        }
        if y < n && self.rows[y].len() >= MAX_LINE {
            return;
        }
        if y == n {
            self.insert_row(n, String::new());
            assert(v.rows.insert(n as int, Seq::empty()) =~= v.rows.push(Seq::empty()));
        }
        let ghost mid = self.rows@;
        proof {
            self.lemma_rows_view();
        }
        self.rows[y].row_insert_char(self.cursor.x as usize, c);
        self.cursor.x = self.cursor.x + 1;
        self.dirty = next_count(self.dirty);
        assert(self.rows@.map_values(|r: Row| r@) =~= mid.map_values(|r: Row| r@).update(
            y as int,
            insert_at(mid[y as int]@, v.cx, c),
        ));
        assert(self@ == v.inserted_char(c));
    }

    /// Backspace: deletes the character before the cursor, or joins the row
    /// with the one above.
    pub fn editor_del_char(&mut self)
        requires
            old(self).wf(),
        ensures
            final(self).wf(),
            final(self)@ == old(self)@.deleted_before(),
    {
        let ghost v = self@;
        let n = self.rows.len();
        let y = self.cursor.y as usize;
        let x = self.cursor.x as usize;
        if y == n {
            return;
        }
        if x == 0 && y == 0 {
            return;
        }
        if x > 0 {
            let ghost mid = self.rows@;
            self.rows[y].del_char(x - 1);
            self.cursor.x = self.cursor.x - 1;
            self.dirty = next_count(self.dirty);
            assert(self.rows@.map_values(|r: Row| r@) =~= mid.map_values(|r: Row| r@).update(
                y as int,
                delete_at(mid[y as int]@, x - 1),
            ));
            assert(self@ == v.deleted_before());
        } else {
            let above = self.rows[y - 1].len();
            if above + self.rows[y].len() > MAX_LINE {
                return;
            }
            self.cursor.x = above as u16;
            let removed = self.del_row(y);
            if let Some(text) = removed {
                let ghost mid = self.rows@;
                proof {
                    self.lemma_rows_view();
                }
                self.rows[y - 1].append_string(text.as_str());
                self.cursor.y = self.cursor.y - 1;
                self.dirty = next_count(self.dirty);
                let ghost joined = v.rows[y - 1] + v.rows[y as int];
                assert(mid.map_values(|r: Row| r@) =~= v.rows.remove(y as int));
                assert(text@ == v.rows[y as int]);
                assert(mid.map_values(|r: Row| r@)[y - 1] == v.rows.remove(y as int)[y - 1]);
                assert(mid[y - 1]@ == v.rows[y - 1]);
                assert(self.rows@[y - 1]@ == joined);
                assert(self.rows@.len() == mid.len());
                assert(self.rows@.map_values(|r: Row| r@) =~= mid.map_values(|r: Row| r@).update(
                    y - 1,
                    joined,
                ));
                assert(v.rows.remove(y as int).update(y - 1, joined) =~= v.rows.update(
                    y - 1,
                    joined,
                ).remove(y as int));
                assert(self@ == v.deleted_before());
            }
        }
    }

    /// Enter: splits the row at the cursor.
    pub fn insert_new_line(&mut self)
        requires
            old(self).wf(),
        ensures
            final(self).wf(),
            final(self)@ == old(self)@.new_line(),
    {
        let ghost v = self@;
        if self.rows.len() >= MAX_ROWS {
            return;
        }
        let y = self.cursor.y as usize;
        if self.cursor.x == 0 {
            self.insert_row(y, String::new());
        } else {
            let rest = self.rows[y].rowsplit(self.cursor.x as usize);
            self.insert_row(y + 1, rest);
        }
        self.cursor.y = self.cursor.y + 1;
        self.cursor.x = 0;
        assert(self@.rows =~= v.new_line().rows);
        assert(self@ == v.new_line());
    }

    /// Recomputes the cursor's render column and moves the offsets so that
    /// the cursor is in the pane.
    pub fn scroll(&mut self)
        requires
            old(self).wf(),
        ensures
            final(self).wf(),
            final(self)@ == old(self)@.scrolled(),
    {
        let ghost v = self@;
        let y = self.cursor.y as usize;
        self.render_x = if y < self.rows.len() {
            self.rows[y].cursorx_to_renderx(self.cursor.x)
        } else {
            0
        };
        if self.cursor.y < self.rowoff {
            self.rowoff = self.cursor.y;
        }
        if self.cursor.y as u32 >= self.rowoff as u32 + self.screen_rows as u32 {
            self.rowoff = self.cursor.y - self.screen_rows + 1;
        }
        if self.render_x < self.coloff {
            self.coloff = self.render_x;
        }
        if self.render_x as u32 >= self.coloff as u32 + self.screen_cols as u32 {
            self.coloff = self.render_x - self.screen_cols + 1;
        }
        assert(self@ == v.scrolled());
    }
}

/// The document as text: each row followed by a newline.
pub open spec fn serialized(rows: Seq<Seq<char>>) -> Seq<char>
    decreases rows.len(),
{
    if rows.len() == 0 {
        Seq::empty()
    } else {
        serialized(rows.drop_last()) + rows.last() + seq!['\n']
    }
}

/// The cursor and scroll offsets kept while a search prompt is open, to be
/// put back when the search is cancelled.
#[derive(Clone, Copy, Debug, PartialEq, Eq, Structural)]
pub struct SavedView {
    pub cursor: CursorPos,
    pub rowoff: u16,
    pub coloff: u16,
}

impl EditorView {
    /// The state with `saved` put back; a saved cursor that no longer fits
    /// the document is left out.
    pub open spec fn restored(self, saved: SavedView) -> EditorView {
        let moved = self.with_cursor(saved.cursor.x as int, saved.cursor.y as int);
        let base = if moved.cursor_ok() {
            moved
        } else {
            self
        };
        EditorView { rowoff: saved.rowoff as int, coloff: saved.coloff as int, ..base }
    }
}

impl Editor {
    pub fn cursor(&self) -> (p: CursorPos)
        ensures
            p.x == self@.cx,
            p.y == self@.cy,
    {
        self.cursor
    }

    pub fn rowoff(&self) -> (r: u16)
        ensures
            r == self@.rowoff,
    {
        self.rowoff
    }

    pub fn coloff(&self) -> (c: u16)
        ensures
            c == self@.coloff,
    {
        self.coloff
    }

    pub fn render_x(&self) -> (r: u16)
        ensures
            r == self@.render_x,
    {
        self.render_x
    }

    pub fn dirty(&self) -> (d: usize)
        ensures
            d == self@.dirty,
    {
        self.dirty
    }

    pub fn num_rows(&self) -> (n: usize)
        ensures
            n == self@.rows.len(),
    {
        self.rows.len()
    }

    pub fn screen_rows(&self) -> (h: u16)
        ensures
            h == self@.height,
    {
        self.screen_rows
    }

    pub fn screen_cols(&self) -> (w: u16)
        ensures
            w == self@.width,
    {
        self.screen_cols
    }

    pub fn last_match(&self) -> (m: Option<usize>)
        ensures
            opt_int(m) == self@.last_match,
    {
        self.last_match
    }

    pub fn direction(&self) -> (d: SearchDirection)
        ensures
            d == self@.direction,
    {
        self.direction
    }

    /// Row `at`.
    pub fn row(&self, at: usize) -> (r: &Row)
        requires
            self.wf(),
            at < self@.rows.len(),
        ensures
            r@ == self@.rows[at as int],
            r.wf(),
    {
        &self.rows[at]
    }

    /// The characters of row `at`.
    pub fn row_text(&self, at: usize) -> (s: String)
        requires
            at < self@.rows.len(),
        ensures
            s@ == self@.rows[at as int],
    {
        string_of(self.rows[at].characters.as_slice())
    }

    pub fn filename(&self) -> (s: String)
        ensures
            s@ == self@.filename,
    {
        self.filename.clone()
    }

    pub fn set_filename(&mut self, name: String)
        ensures
            final(self)@ == (EditorView { filename: name@, ..old(self)@ }),
    {
        self.filename = name;
    }

    /// Records that the document was written out: no unsaved changes remain.
    pub fn mark_saved(&mut self)
        ensures
            final(self)@ == (EditorView { dirty: 0, ..old(self)@ }),
    {
        self.dirty = 0;
    }

    /// The cursor and offsets, to be put back if a search is cancelled.
    pub fn save_view(&self) -> (s: SavedView)
        ensures
            s.cursor.x == self@.cx,
            s.cursor.y == self@.cy,
            s.rowoff == self@.rowoff,
            s.coloff == self@.coloff,
    {
        SavedView { cursor: self.cursor, rowoff: self.rowoff, coloff: self.coloff }
    }

    /// Puts back the cursor and offsets of `saved`.
    pub fn restore_view(&mut self, saved: SavedView)
        requires
            old(self).wf(),
        ensures
            final(self).wf(),
            final(self)@ == old(self)@.restored(saved),
    {
        let ghost v = self@;
        let n = self.rows.len();
        let y = saved.cursor.y as usize;
        let fits = y < n && (saved.cursor.x as usize) <= self.rows[y].len() || y == n
            && saved.cursor.x == 0;
        if fits {
            self.cursor = saved.cursor;
        }
        self.rowoff = saved.rowoff;
        self.coloff = saved.coloff;
        proof {
            self.lemma_rows_view();
        }
        assert(self@ == v.restored(saved));
    }

    /// The document as text, each row followed by a newline.
    pub fn row_to_string(&self) -> (s: String)
        ensures
            s@ == serialized(self@.rows),
    {
        let mut out: Vec<char> = Vec::new();
        let n = self.rows.len();
        let mut i: usize = 0;
        proof {
            self.lemma_rows_view();
            assert(self@.rows.take(0) =~= Seq::<Seq<char>>::empty());
        }
        while i < n
            invariant
                n == self@.rows.len(),
                n == self.rows@.len(),
                i <= n,
                forall|j: int| 0 <= j < n ==> #[trigger] self@.rows[j] == self.rows@[j]@,
                out@ == serialized(self@.rows.take(i as int)),
            decreases n - i,
        {
            let ghost before = out@;
            let mut line = self.rows[i].characters.clone();
            out.append(&mut line);
            out.push('\n');
            proof {
                let rows = self@.rows;
                assert(rows.take(i + 1).drop_last() =~= rows.take(i as int));
                assert(out@ =~= before + rows[i as int] + seq!['\n']);
            }
            i = i + 1;
        }
        assert(self@.rows.take(n as int) =~= self@.rows);
        string_of(out.as_slice())
    }
}

} // verus!
