//! Text buffer and viewport engine of a small terminal text editor: the
//! document's lines, tab expansion, cursor movement, scrolling and search.
use vstd::prelude::*;

pub mod editor;
pub mod keypress;
pub mod keys;
pub mod row;
pub mod search;
pub mod status;
pub mod text;

verus! {

/// Result of an editor operation.
pub type EditorResult<T, E> = Result<T, E>;

/// Failures that end an editing session.
pub enum ResultCode {
    KeyReadFail,
}

/// A position on the document or on the screen: `x` is the column, `y` the row.
#[derive(Clone, Copy, Debug, PartialEq, Eq, Structural)]
pub struct CursorPos {
    pub x: u16,
    pub y: u16,
}

impl Default for CursorPos {
    fn default() -> (p: CursorPos)
        ensures
            p.x == 0,
            p.y == 0,
    {
        CursorPos { x: 0, y: 0 }
    }
}

} // verus!
