//! What the screen shows: the visible part of each row, the status bar and
//! the cursor's place on the screen.
use vstd::prelude::*;

use crate::editor::{Editor, EditorView};
use crate::row::expand_tabs;
use crate::text::{chars_of, decimal, push_decimal, push_spaces, push_str, spaces, string_of};
use crate::CursorPos;

verus! {

/// `s` padded with spaces to at least `w` characters.
pub open spec fn pad_right(s: Seq<char>, w: int) -> Seq<char> {
    if s.len() < w {
        s + spaces(w - s.len())
    } else {
        s
    }
}

/// The cursor's row as a percentage of the row count, rounded down.
pub open spec fn percent(v: EditorView) -> int {
    if v.rows.len() > 0 {
        (v.cy * 100) / (v.rows.len() as int)
    } else {
        0
    }
}

/// The right part of the status bar: the cursor's row and column, then
/// "All" for an empty document, "TOP" in the first 5% of the rows, "BOT"
/// past 95%, and the percentage elsewhere.
pub open spec fn position_label(v: EditorView) -> Seq<char> {
    let pos = decimal(v.cy as nat) + seq![','] + decimal(v.cx as nat);
    let p = percent(v);
    if v.rows.len() == 0 {
        pos + "        All"@
    } else if p < 5 {
        pos + "      TOP"@
    } else if p > 95 {
        pos + "      BOT"@
    } else {
        pos + "      "@ + decimal(p as nat) + seq!['%']
    }
}

/// The left part of the status bar: the file name (or "[No Name]") padded
/// to 20 columns, a mark for unsaved changes, and the row count.
pub open spec fn file_label(v: EditorView) -> Seq<char> {
    let name = if v.filename.len() == 0 {
        "[No Name]"@
    } else {
        v.filename
    };
    let modified = if v.dirty > 0 {
        "(modified)"@
    } else {
        Seq::empty()
    };
    pad_right(name, 20) + " "@ + modified + " - "@ + decimal(v.rows.len()) + " lines"@
}

/// The status bar: `left`, then `right` flush with the right edge when it
/// fits, spaces up to `width` otherwise.
pub open spec fn status_bar(left: Seq<char>, right: Seq<char>, width: int) -> Seq<char> {
    if left.len() >= width {
        left
    } else if 0 < right.len() <= width - left.len() {
        left + spaces(width - left.len() - right.len()) + right
    } else {
        left + spaces(width - left.len())
    }
}

/// `welcome` cut to `width` columns and centred, with a tilde at the left
/// edge when there is room for it.
pub open spec fn welcome_line(welcome: Seq<char>, width: int) -> Seq<char> {
    let w = if welcome.len() > width {
        welcome.take(width)
    } else {
        welcome
    };
    if w.len() < width {
        let left = (width - w.len()) / 2;
        if left == 0 {
            w
        } else {
            seq!['~'] + spaces(left - 1) + w
        }
    } else {
        w
    }
}

/// Screen line `i` of the pane: the visible part of a row's render, or a
/// tilde past the end of the document, with the welcome text a third of the
/// way down when the document is empty.
pub open spec fn screen_line(v: EditorView, welcome: Seq<char>, i: int) -> Seq<char> {
    let filerow = i + v.rowoff;
    let n = v.rows.len() as int;
    if filerow >= n {
        if n == 0 && i == v.height / 3 {
            welcome_line(welcome, v.width)
        } else {
            seq!['~']
        }
    } else {
        let r = expand_tabs(v.rows[filerow]);
        if r.len() < v.coloff {
            Seq::empty()
        } else {
            let len = r.len() - v.coloff;
            r.subrange(
                v.coloff,
                v.coloff + if len > v.width {
                    v.width
                } else {
                    len
                },
            )
        }
    }
}

/// `a - b`, or 0 when `b` is larger.
pub open spec fn sat_sub(a: int, b: int) -> int {
    if a >= b {
        a - b
    } else {
        0
    }
}

/// The status bar for a pane `screen_width` columns wide.
pub fn status_bar_line(left: &str, right: &str, screen_width: u16) -> (line: String)
    ensures
        line@ == status_bar(left@, right@, screen_width as int),
{
    let mut out = chars_of(left);
    let r = chars_of(right);
    let width = screen_width as usize;
    let len = out.len();
    if len < width {
        if 0 < r.len() && r.len() <= width - len {
            push_spaces(&mut out, width - len - r.len());
            push_str(&mut out, right);
        } else {
            push_spaces(&mut out, width - len);
        }
    }
    string_of(out.as_slice())
}

impl Editor {
    /// The right part of the status bar.
    pub fn calc_percent(&self) -> (s: String)
        ensures
            s@ == position_label(self@),
    {
        let mut out: Vec<char> = Vec::new();
        let c = self.cursor();
        push_decimal(&mut out, c.y as usize);
        out.push(',');
        push_decimal(&mut out, c.x as usize);
        let n = self.num_rows();
        let p: usize = if n > 0 {
            (c.y as usize * 100) / n
        } else {
            0
        };
        if n == 0 {
            push_str(&mut out, "        All");
        } else if p < 5 {
            push_str(&mut out, "      TOP");
        } else if p > 95 {
            push_str(&mut out, "      BOT");
        } else {
            push_str(&mut out, "      ");
            push_decimal(&mut out, p);
            out.push('%');
        }
        assert(out@ =~= position_label(self@));
        string_of(out.as_slice())
    }

    /// The left part of the status bar.
    pub fn file_label(&self) -> (s: String)
        ensures
            s@ == file_label(self@),
    {
        let name = self.filename();
        let mut out: Vec<char> = Vec::new();
        if name.as_str().is_empty() {
            push_str(&mut out, "[No Name]");
        } else {
            push_str(&mut out, name.as_str());
        }
        let name_len = out.len();
        if name_len < 20 {
            push_spaces(&mut out, 20 - name_len);
        }
        push_str(&mut out, " ");
        if self.dirty() > 0 {
            push_str(&mut out, "(modified)");
        }
        push_str(&mut out, " - ");
        push_decimal(&mut out, self.num_rows());
        push_str(&mut out, " lines");
        assert(out@ =~= file_label(self@));
        string_of(out.as_slice())
    }

    /// The lines of the pane, top to bottom.
    pub fn draw_rows(&self, welcome: &str) -> (lines: Vec<String>)
        requires
            self.wf(),
        ensures
            lines@.len() == self@.height,
            forall|i: int| 0 <= i < lines@.len() ==> #[trigger] lines@[i]@ == screen_line(self@, welcome@, i),
    {
        let mut lines: Vec<String> = Vec::new();
        let height = self.screen_rows();
        let width = self.screen_cols() as usize;
        let coloff = self.coloff() as usize;
        let n = self.num_rows();
        let mut i: u16 = 0;
        while i < height
            invariant
                self.wf(),
                height == self@.height,
                width == self@.width,
                coloff == self@.coloff,
                n == self@.rows.len(),
                i <= height,
                lines@.len() == i,
                forall|j: int| 0 <= j < i ==> #[trigger] lines@[j]@ == screen_line(self@, welcome@, j),
            decreases height - i,
        {
            let filerow = i as usize + self.rowoff() as usize;
            let line = if filerow >= n {
                if n == 0 && i == height / 3 {
                    welcome_text(welcome, width)
                } else {
                    string_of(&['~'])
                }
            } else {
                let row = self.row(filerow);
                let render = &row.render;
                let mut out: Vec<char> = Vec::new();
                if render.len() >= coloff {
                    let len = render.len() - coloff;
                    let end = coloff + if len > width {
                        width
                    } else {
                        len
                    };
                    let mut k = coloff;
                    while k < end
                        invariant
                            coloff <= k <= end,
                            end <= render@.len(),
                            out@ == render@.subrange(coloff as int, k as int),
                        decreases end - k,
                    {
                        out.push(render[k]);
                        k = k + 1;
                        assert(out@ =~= render@.subrange(coloff as int, k as int));
                    }
                }
                assert(out@ =~= screen_line(self@, welcome@, i as int));
                string_of(out.as_slice())
            };
            lines.push(line);
            i = i + 1;
        }
        lines
    }

    /// Where the cursor stands on the screen: its render column and row,
    /// less the offsets.
    pub fn screen_cursor(&self) -> (p: CursorPos)
        ensures
            p.x == sat_sub(self@.render_x, self@.coloff),
            p.y == sat_sub(self@.cy, self@.rowoff),
    {
        let c = self.cursor();
        let rx = self.render_x();
        let coloff = self.coloff();
        let rowoff = self.rowoff();
        CursorPos {
            x: if rx >= coloff {
                rx - coloff
            } else {
                0
            },
            y: if c.y >= rowoff {
                c.y - rowoff
            } else {
                0
            },
        }
    }
}

/// The welcome text as `welcome_line` lays it out.
fn welcome_text(welcome: &str, width: usize) -> (s: String)
    ensures
        s@ == welcome_line(welcome@, width as int),
{
    let all = chars_of(welcome);
    let mut w: Vec<char> = Vec::new();
    let cut = if all.len() > width {
        width
    } else {
        all.len()
    };
    let mut k: usize = 0;
    while k < cut
        invariant
            k <= cut <= all@.len(),
            w@ == all@.take(k as int),
        decreases cut - k,
    {
        w.push(all[k]);
        k = k + 1;
        assert(w@ =~= all@.take(k as int));
    }
    assert(all@.take(all@.len() as int) =~= all@);
    let mut out: Vec<char> = Vec::new();
    if w.len() < width {
        let left = (width - w.len()) / 2;
        if left > 0 {
            out.push('~');
            push_spaces(&mut out, left - 1);
        }
    }
    out.append(&mut w);
    assert(out@ =~= welcome_line(welcome@, width as int));
    string_of(out.as_slice())
}

} // verus!
