//! What one key press does to an editing session.
use vstd::prelude::*;

use crate::editor::{Editor, EditorKey, EditorView, KILO_QUIT_TIMES};
use crate::keys::{KeyCode, KeyEvent};

verus! {

/// What is left to do after a key press, beyond the session's own state.
#[derive(Clone, Copy, Debug, PartialEq, Eq, Structural)]
pub enum KeyAction {
    /// Read the next key.
    Continue,
    /// End the session.
    Quit,
    /// Warn that there are unsaved changes; the count is the number of
    /// further requests to quit that will be refused.
    QuitWarning(usize),
    /// Save the document.
    Save,
    /// Open the search prompt.
    Find,
}

/// Control-`c`.
pub open spec fn is_control_char(key: KeyEvent, c: char) -> bool {
    key.code == KeyCode::Char(c) && key.modifiers.is_control()
}

impl EditorView {
    /// Page up or down: the cursor goes to the top row of the pane (or the
    /// bottom one, at most the position past the last row), its column is
    /// clamped to that row, and then it moves a pane height up or down.
    pub open spec fn page_moved(self, up: bool) -> EditorView {
        let n = self.rows.len() as int;
        let target = if up {
            self.rowoff
        } else {
            self.rowoff + self.height - 1
        };
        let y = if target < n {
            target
        } else {
            n
        };
        let x = if self.cx < self.row_len(y) {
            self.cx
        } else {
            self.row_len(y)
        };
        self.with_cursor(x, y).repeat_move(
            if up {
                EditorKey::ArrowUp
            } else {
                EditorKey::ArrowDown
            },
            self.height as nat,
        )
    }

    /// The edit or movement that a key other than control-q makes.
    pub open spec fn key_edit(self, key: KeyEvent) -> EditorView {
        let m = key.modifiers;
        match key.code {
            KeyCode::Char(ch) => if m.is_plain() {
                self.inserted_char(ch)
            } else if m.is_control() && ch == 'h' {
                self.deleted_before()
            } else {
                self
            },
            KeyCode::Backspace => if m.is_none() {
                self.deleted_before()
            } else {
                self
            },
            KeyCode::Delete => if m.is_none() {
                self.moved(EditorKey::ArrowRight).deleted_before()
            } else {
                self
            },
            KeyCode::Enter => if m.is_none() {
                self.new_line()
            } else {
                self
            },
            KeyCode::Home => self.with_cursor(0, self.cy),
            KeyCode::End => if self.cy < self.rows.len() {
                self.with_cursor(self.row_len(self.cy), self.cy)
            } else {
                self
            },
            KeyCode::Up => self.moved(EditorKey::ArrowUp),
            KeyCode::Down => self.moved(EditorKey::ArrowDown),
            KeyCode::Left => self.moved(EditorKey::ArrowLeft),
            KeyCode::Right => self.moved(EditorKey::ArrowRight),
            KeyCode::PageUp => self.page_moved(true),
            KeyCode::PageDown => self.page_moved(false),
            _ => self,
        }
    }

    /// Control-q is refused while there are unsaved changes and refusals left.
    pub open spec fn quit_refused(self) -> bool {
        self.dirty > 0 && self.quit_times > 0
    }

    /// The state after a key press. A refused control-q uses up one refusal;
    /// any other key but control-q makes its edit and restores the refusals.
    pub open spec fn after_key(self, key: KeyEvent) -> EditorView {
        if is_control_char(key, 'q') {
            if self.quit_refused() {
                EditorView { quit_times: self.quit_times - 1, ..self }
            } else {
                self
            }
        } else {
            EditorView { quit_times: KILO_QUIT_TIMES as int, ..self.key_edit(key) }
        }
    }

    /// What is left to do after a key press.
    pub open spec fn key_action(self, key: KeyEvent) -> KeyAction {
        if is_control_char(key, 'q') {
            if self.quit_refused() {
                KeyAction::QuitWarning(self.quit_times as usize)
            } else {
                KeyAction::Quit
            }
        } else if is_control_char(key, 's') {
            KeyAction::Save
        } else if is_control_char(key, 'f') {
            KeyAction::Find
        } else {
            KeyAction::Continue
        }
    }
}

impl Editor {
    /// Page up (`up`) or page down.
    pub fn page_move(&mut self, up: bool)
        requires
            old(self).wf(),
        ensures
            final(self).wf(),
            final(self)@ == old(self)@.page_moved(up),
    {
        let ghost v = self@;
        let n = self.rows.len();
        let target: usize = if up {
            self.rowoff as usize
        } else {
            self.rowoff as usize + self.screen_rows as usize - 1
        };
        let y: usize = if target < n {
            target
        } else {
            n
        };
        self.cursor.y = y as u16;
        let rowlen = if y < n {
            self.rows[y].len()
        } else {
            0
        };
        if self.cursor.x as usize > rowlen {
            self.cursor.x = rowlen as u16;
        }
        let key = if up {
            EditorKey::ArrowUp
        } else {
            EditorKey::ArrowDown
        };
        let ghost start = self@;
        proof {
            self.lemma_rows_view();
        }
        assert(start.cy == y);
        assert(start.cx == if v.cx < v.row_len(y as int) {
            v.cx
        } else {
            v.row_len(y as int)
        });
        assert(start.repeat_move(key, v.height as nat) == v.page_moved(up));
        let mut i: u16 = 0;
        while i < self.screen_rows
            invariant
                v == old(self)@,
                start.repeat_move(key, v.height as nat) == v.page_moved(up),
                self.wf(),
                self@ == start.repeat_move(key, i as nat),
                self.screen_rows == v.height,
                i <= self.screen_rows,
            decreases self.screen_rows - i,
        {
            self.move_cursor(key);
            i = i + 1;
        }
    }

    /// Takes one key press: edits, moves or scrolls the session and says
    /// what is left to do.
    pub fn process_keypress(&mut self, key: KeyEvent) -> (action: KeyAction)
        requires
            old(self).wf(),
        ensures
            final(self).wf(),
            final(self)@ == old(self)@.after_key(key),
            action == old(self)@.key_action(key),
    {
        let ghost v = self@;
        let m = key.modifiers;
        let plain = !m.control && !m.alt;
        let none = !m.shift && !m.control && !m.alt;
        let control = m.control && !m.shift && !m.alt;
        if control && key.code == KeyCode::Char('q') {
            if self.dirty > 0 && self.quit_times > 0 {
                let times = self.quit_times;
                self.quit_times = self.quit_times - 1;
                return KeyAction::QuitWarning(times);
            } else {
                return KeyAction::Quit;
            }
        }
        let mut action = KeyAction::Continue;
        match key.code {
            KeyCode::Char(ch) => {
                if plain {
                    self.editor_insert_char(ch);
                } else if control && ch == 's' {
                    action = KeyAction::Save;
                } else if control && ch == 'h' {
                    self.editor_del_char();
                } else if control && ch == 'f' {
                    action = KeyAction::Find;
                }
            },
            KeyCode::Backspace => {
                if none {
                    self.editor_del_char();
                }
            },
            KeyCode::Delete => {
                if none {
                    self.move_cursor(EditorKey::ArrowRight);
                    self.editor_del_char();
                }
            },
            KeyCode::Enter => {
                if none {
                    self.insert_new_line();
                }
            },
            KeyCode::Home => {
                self.cursor.x = 0;
            },
            KeyCode::End => {
                let y = self.cursor.y as usize;
                if y < self.rows.len() {
                    self.cursor.x = self.rows[y].len() as u16;
                }
            },
            KeyCode::Up => self.move_cursor(EditorKey::ArrowUp),
            KeyCode::Down => self.move_cursor(EditorKey::ArrowDown),
            KeyCode::Left => self.move_cursor(EditorKey::ArrowLeft),
            KeyCode::Right => self.move_cursor(EditorKey::ArrowRight),
            KeyCode::PageUp => self.page_move(true),
            KeyCode::PageDown => self.page_move(false),
            _ => {},
        }
        self.quit_times = KILO_QUIT_TIMES;
        action
    }
}

} // verus!
