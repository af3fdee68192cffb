//! Key events as the editor reads them, and the line prompt that collects a
//! search query or a file name.
use vstd::prelude::*;

use crate::text::string_of;

verus! {

/// Which key was pressed.
#[derive(Clone, Copy, Debug, PartialEq, Eq, Structural)]
pub enum KeyCode {
    Char(char),
    Backspace,
    Delete,
    Enter,
    Esc,
    Home,
    End,
    Up,
    Down,
    Left,
    Right,
    PageUp,
    PageDown,
    Other,
}

/// The modifier keys held with a key.
#[derive(Clone, Copy, Debug, PartialEq, Eq, Structural)]
pub struct KeyModifiers {
    pub shift: bool,
    pub control: bool,
    pub alt: bool,
}

/// One key press.
#[derive(Clone, Copy, Debug, PartialEq, Eq, Structural)]
pub struct KeyEvent {
    pub code: KeyCode,
    pub modifiers: KeyModifiers,
}

impl KeyModifiers {
    /// No modifier at all.
    pub open spec fn is_none(self) -> bool {
        !self.shift && !self.control && !self.alt
    }

    /// No modifier, or shift alone: the key types text.
    pub open spec fn is_plain(self) -> bool {
        !self.control && !self.alt
    }

    /// Control alone.
    pub open spec fn is_control(self) -> bool {
        self.control && !self.shift && !self.alt
    }

    pub fn none() -> (m: KeyModifiers)
        ensures
            m.is_none(),
    {
        KeyModifiers { shift: false, control: false, alt: false }
    }

    pub fn shift() -> (m: KeyModifiers)
        ensures
            m.shift && !m.control && !m.alt,
    {
        KeyModifiers { shift: true, control: false, alt: false }
    }

    pub fn control() -> (m: KeyModifiers)
        ensures
            m.is_control(),
    {
        KeyModifiers { shift: false, control: true, alt: false }
    }
}

impl KeyEvent {
    pub fn new(code: KeyCode, modifiers: KeyModifiers) -> (k: KeyEvent)
        ensures
            k.code == code,
            k.modifiers == modifiers,
    {
        KeyEvent { code, modifiers }
    }
}

/// What a key means to the search while the prompt is open.
#[derive(Clone, Copy, Debug, PartialEq, Eq, Structural)]
pub enum PromptKey {
    Enter,
    Escape,
    Char(char),
    Prev,
    Next,
}

/// Whether the prompt is still open after a key.
#[derive(Clone, Copy, Debug, PartialEq, Eq, Structural)]
pub enum PromptOutcome {
    Pending,
    Confirmed,
    Cancelled,
}

/// What one key did to the prompt: the event to pass on to a search, if
/// any, and whether the prompt is still open.
#[derive(Clone, Copy, Debug, PartialEq, Eq, Structural)]
pub struct PromptStep {
    pub event: Option<PromptKey>,
    pub outcome: PromptOutcome,
}

/// The event and outcome of `key` on a prompt.
pub open spec fn prompt_step(key: KeyEvent) -> PromptStep {
    match key.code {
        KeyCode::Enter => PromptStep { event: Some(PromptKey::Enter), outcome: PromptOutcome::Confirmed },
        KeyCode::Esc => PromptStep {
            event: Some(PromptKey::Escape),
            outcome: PromptOutcome::Cancelled,
        },
        KeyCode::Char(ch) => if key.modifiers.is_plain() {
            PromptStep { event: Some(PromptKey::Char(ch)), outcome: PromptOutcome::Pending }
        } else {
            PromptStep { event: None, outcome: PromptOutcome::Pending }
        },
        KeyCode::Down | KeyCode::Right => PromptStep {
            event: Some(PromptKey::Next),
            outcome: PromptOutcome::Pending,
        },
        KeyCode::Up | KeyCode::Left => PromptStep {
            event: Some(PromptKey::Prev),
            outcome: PromptOutcome::Pending,
        },
        _ => PromptStep { event: None, outcome: PromptOutcome::Pending },
    }
}

/// The prompt's text after `key`: a typed character is added, backspace,
/// delete and control-h take the last one away.
pub open spec fn prompt_text(text: Seq<char>, key: KeyEvent) -> Seq<char> {
    match key.code {
        KeyCode::Char(ch) => if key.modifiers.is_plain() {
            text.push(ch)
        } else if key.modifiers.is_control() && ch == 'h' && text.len() > 0 {
            text.drop_last()
        } else {
            text
        },
        KeyCode::Backspace | KeyCode::Delete => if text.len() > 0 {
            text.drop_last()
        } else {
            text
        },
        _ => text,
    }
}

/// A line of text being typed at the bottom of the screen.
pub struct Prompt {
    buf: Vec<char>,
}

impl View for Prompt {
    type V = Seq<char>;

    closed spec fn view(&self) -> Seq<char> {
        self.buf@
    }
}

impl Prompt {
    pub fn new() -> (p: Prompt)
        ensures
            p@.len() == 0,
    {
        Prompt { buf: Vec::new() }
    }

    /// The text typed so far.
    pub fn text(&self) -> (s: String)
        ensures
            s@ == self@,
    {
        string_of(self.buf.as_slice())
    }

    /// Takes one key.
    pub fn handle_key(&mut self, key: KeyEvent) -> (step: PromptStep)
        ensures
            step == prompt_step(key),
            final(self)@ == prompt_text(old(self)@, key),
    {
        let none = PromptStep { event: None, outcome: PromptOutcome::Pending };
        match key.code {
            KeyCode::Enter => PromptStep {
                event: Some(PromptKey::Enter),
                outcome: PromptOutcome::Confirmed,
            },
            KeyCode::Esc => PromptStep {
                event: Some(PromptKey::Escape),
                outcome: PromptOutcome::Cancelled,
            },
            KeyCode::Char(ch) => {
                let m = key.modifiers;
                if !m.control && !m.alt {
                    self.buf.push(ch);
                    PromptStep { event: Some(PromptKey::Char(ch)), outcome: PromptOutcome::Pending }
                } else {
                    if m.control && !m.shift && !m.alt && ch == 'h' {
                        self.buf.pop();
                    }
                    none
                }
            },
            KeyCode::Backspace | KeyCode::Delete => {
                self.buf.pop();
                none
            },
            KeyCode::Down | KeyCode::Right => PromptStep {
                event: Some(PromptKey::Next),
                outcome: PromptOutcome::Pending,
            },
            KeyCode::Up | KeyCode::Left => PromptStep {
                event: Some(PromptKey::Prev),
                outcome: PromptOutcome::Pending,
            },
            _ => none,
        }
    }
}

} // verus!
