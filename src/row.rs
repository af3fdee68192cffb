//! One line of the document: its characters and their tab-expanded form.
use vstd::prelude::*;

use crate::text::{chars_of, string_of};

verus! {

/// Width of a tab stop, in screen columns.
pub const TAB_STOP: usize = 8;

/// The column reached by a tab that starts at column `col`: the next multiple
/// of the tab stop strictly after `col`.
pub open spec fn tab_advance(col: nat) -> nat {
    (col + 8 - col % 8) as nat
}

/// The screen column reached after drawing `s` from column 0.
pub open spec fn render_width(s: Seq<char>) -> nat
    decreases s.len(),
{
    if s.len() == 0 {
        0
    } else if s.last() == '\t' {
        tab_advance(render_width(s.drop_last()))
    } else {
        render_width(s.drop_last()) + 1
    }
}

/// The tab expansion of `s`: each tab becomes the spaces that reach the next
/// tab stop, every other character stays as it is.
pub open spec fn expand_tabs(s: Seq<char>) -> Seq<char>
    decreases s.len(),
{
    if s.len() == 0 {
        Seq::empty()
    } else {
        let prev = expand_tabs(s.drop_last());
        if s.last() == '\t' {
            prev + Seq::new((tab_advance(prev.len()) - prev.len()) as nat, |i: int| ' ')
        } else {
            prev.push(s.last())
        }
    }
}

/// The first `n` characters of `s`, or all of them when `n` is past its end.
pub open spec fn prefix(s: Seq<char>, n: int) -> Seq<char> {
    if n <= 0 {
        Seq::empty()
    } else if n < s.len() {
        s.take(n)
    } else {
        s
    }
}

/// The render column of logical column `cx` of a line with characters `s`.
pub open spec fn render_column(s: Seq<char>, cx: int) -> nat {
    render_width(prefix(s, cx))
}

/// `s` with `c` put at index `at`, or at its end when `at` is past the end.
pub open spec fn insert_at(s: Seq<char>, at: int, c: char) -> Seq<char> {
    if at >= s.len() {
        s.push(c)
    } else {
        s.insert(at, c)
    }
}

/// `s` without the character at index `at`, or `s` itself when there is none.
pub open spec fn delete_at(s: Seq<char>, at: int) -> Seq<char> {
    if 0 <= at < s.len() {
        s.remove(at)
    } else {
        s
    }
}

/// Some tab of `s` is drawn as more than one space.
pub open spec fn has_wide_tab(s: Seq<char>) -> bool {
    exists|i: int|
        0 <= i < s.len() && s[i] == '\t' && #[trigger] render_width(s.take(i)) % 8 != 7
}

proof fn lemma_take_last<A>(s: Seq<A>, i: int)
    requires
        0 <= i < s.len(),
    ensures
        s.take(i + 1).drop_last() == s.take(i),
        s.take(i + 1).last() == s[i],
{
    assert(s.take(i + 1).drop_last() =~= s.take(i));
}

/// The expansion of `s` is exactly `render_width(s)` characters long.
pub proof fn lemma_expand_len(s: Seq<char>)
    ensures
        expand_tabs(s).len() == render_width(s),
    decreases s.len(),
{
    if s.len() > 0 {
        lemma_expand_len(s.drop_last());
    }
}

/// Render columns never go down as the logical column grows.
pub proof fn lemma_render_column_monotonic(s: Seq<char>, i: int, j: int)
    requires
        i <= j,
    ensures
        render_column(s, i) <= render_column(s, j),
    decreases j - i,
{
    if i < j {
        lemma_render_column_monotonic(s, i, j - 1);
        if 0 <= j - 1 < s.len() {
            lemma_take_last(s, j - 1);
            if j == s.len() {
                assert(s.take(j) =~= s);
            }
        }
    }
}

/// The render width is never below the number of characters; it equals it
/// exactly when no tab is drawn wider than one space.
pub proof fn lemma_render_width_vs_len(s: Seq<char>)
    ensures
        render_width(s) >= s.len(),
        render_width(s) == s.len() <==> !has_wide_tab(s),
    decreases s.len(),
{
    if s.len() > 0 {
        let p = s.drop_last();
        lemma_render_width_vs_len(p);
        let n = p.len() as int;
        assert(s.take(n) =~= p);
        assert forall|i: int| 0 <= i < n implies #[trigger] s.take(i) == p.take(i) by {
            assert(s.take(i) =~= p.take(i));
        }
        if has_wide_tab(p) {
            let i = choose|i: int|
                0 <= i < p.len() && p[i] == '\t' && #[trigger] render_width(p.take(i)) % 8 != 7;
            assert(s.take(i) == p.take(i));
            assert(has_wide_tab(s));
        }
        if has_wide_tab(s) {
            let i = choose|i: int|
                0 <= i < s.len() && s[i] == '\t' && #[trigger] render_width(s.take(i)) % 8 != 7;
            if i < n {
                assert(s.take(i) == p.take(i));
                assert(has_wide_tab(p));
            }
        }
    }
}

/// Inserting a character and then deleting at the index where it landed
/// gives back the line, and so the same render.
pub proof fn lemma_insert_then_delete(s: Seq<char>, at: int, c: char)
    requires
        at >= 0,
    ensures
        delete_at(insert_at(s, at, c), if at < s.len() { at } else { s.len() as int }) == s,
        expand_tabs(delete_at(insert_at(s, at, c), if at < s.len() { at } else { s.len() as int }))
            == expand_tabs(s),
{
    let pos = if at < s.len() { at } else { s.len() as int };
    assert(delete_at(insert_at(s, at, c), pos) =~= s);
}

/// A render is never shorter than its characters, and has the same length
/// exactly when the line holds no tab. A tab that is drawn as a single space
/// (one that starts at the last column before a tab stop) keeps the lengths
/// equal, so lines whose tabs are all of that kind are left out.
pub proof fn lemma_render_no_shorter(s: Seq<char>)
    requires
        !s.contains('\t') || has_wide_tab(s),
    ensures
        expand_tabs(s).len() >= s.len(),
        expand_tabs(s).len() == s.len() <==> !s.contains('\t'),
{
    lemma_expand_len(s);
    lemma_render_width_vs_len(s);
}

/// A line holds `render` as the tab expansion of `characters` and nothing
/// else, for every value that the methods below hand out.
pub struct Row {
    pub characters: Vec<char>,
    pub render: Vec<char>,
}

impl View for Row {
    type V = Seq<char>;

    open spec fn view(&self) -> Seq<char> {
        self.characters@
    }
}

impl Row {
    /// `render` is the tab expansion of `characters`.
    pub open spec fn wf(&self) -> bool {
        self.render@ == expand_tabs(self.characters@)
    }

    fn expand(characters: &Vec<char>) -> (render: Vec<char>)
        ensures
            render@ == expand_tabs(characters@),
    {
        let mut render: Vec<char> = Vec::new();
        let n = characters.len();
        let mut i: usize = 0;
        while i < n
            invariant
                n == characters@.len(),
                i <= n,
                render@ == expand_tabs(characters@.take(i as int)),
            decreases n - i,
        {
            let c = characters[i];
            proof {
                lemma_take_last(characters@, i as int);
            }
            let ghost prev = render@;
            if c == '\t' {
                render.push(' ');
                while render.len() % TAB_STOP != 0
                    invariant
                        prev.len() < render@.len() <= tab_advance(prev.len()),
                        render@ == prev + Seq::new((render@.len() - prev.len()) as nat, |k: int| ' '),
                    decreases tab_advance(prev.len()) - render@.len(),
                {
                    render.push(' ');
                    assert(render@ =~= prev + Seq::new((render@.len() - prev.len()) as nat, |k: int| ' '));
                }
                assert(render@ =~= prev + Seq::new((tab_advance(prev.len()) - prev.len()) as nat, |k: int| ' '));
            } else {
                render.push(c);
            }
            i = i + 1;
        }
        proof {
            assert(characters@.take(n as int) =~= characters@);
        }
        render
    }

    /// A line holding `characters`, with its render computed.
    pub fn new(characters: String) -> (row: Row)
        ensures
            row@ == characters@,
            row.wf(),
    {
        let characters = chars_of(characters.as_str());
        let render = Row::expand(&characters);
        Row { characters, render }
    }

    /// The tab expansion of `characters`.
    pub fn render_row(characters: &str) -> (render: String)
        ensures
            render@ == expand_tabs(characters@),
    {
        let chars = chars_of(characters);
        let render = Row::expand(&chars);
        string_of(render.as_slice())
    }

    /// Number of screen columns the line takes.
    pub fn render_length(&self) -> (n: usize)
        requires
            self.wf(),
        ensures
            n == expand_tabs(self@).len(),
    {
        self.render.len()
    }

    /// Number of characters of the line.
    pub fn len(&self) -> (n: usize)
        ensures
            n == self@.len(),
    {
        self.characters.len()
    }

    /// The render column of logical column `cx`, saturated at `u16::MAX`;
    /// a `cx` past the end counts as the end of the line.
    pub fn cursorx_to_renderx(&self, cx: u16) -> (rx: u16)
        requires
            self.wf(),
        ensures
            rx as nat == if render_column(self@, cx as int) <= u16::MAX as nat {
                render_column(self@, cx as int)
            } else {
                u16::MAX as nat
            },
    {
        let n = self.characters.len();
        let end: usize = if (cx as usize) < n { cx as usize } else { n };
        let render_len = self.render.len();
        proof {
            lemma_expand_len(self@);
            assert(self@.take(n as int) =~= self@);
            assert(self@.take(0) =~= Seq::<char>::empty());
        }
        let mut rx: usize = 0;
        let mut i: usize = 0;
        while i < end
            invariant
                n == self@.len(),
                end <= n,
                i <= end,
                rx == render_width(self@.take(i as int)),
                render_width(self@) == render_len,
            decreases end - i,
        {
            proof {
                lemma_take_last(self@, i as int);
                lemma_render_column_monotonic(self@, i as int + 1, n as int);
            }
            if self.characters[i] == '\t' {
                rx = rx + (TAB_STOP - 1) - (rx % TAB_STOP);
            }
            rx = rx + 1;
            i = i + 1;
        }
        if rx > u16::MAX as usize {
            u16::MAX
        } else {
            rx as u16
        }
    }

    /// Puts `c` at index `at`, or at the end when `at` is past it.
    pub fn row_insert_char(&mut self, at: usize, c: char)
        ensures
            final(self)@ == insert_at(old(self)@, at as int, c),
            final(self).wf(),
    {
        if at >= self.characters.len() {
            self.characters.push(c);
        } else {
            self.characters.insert(at, c);
        }
        self.render = Row::expand(&self.characters);
    }

    /// Removes the character at `at`; says whether there was one.
    pub fn del_char(&mut self, at: usize) -> (deleted: bool)
        requires
            old(self).wf(),
        ensures
            deleted == (at < old(self)@.len()),
            final(self)@ == delete_at(old(self)@, at as int),
            final(self).wf(),
    {
        if at >= self.characters.len() {
            false
        } else {
            self.characters.remove(at);
            self.render = Row::expand(&self.characters);
            true
        }
    }

    /// Adds the characters of `s` at the end of the line.
    pub fn append_string(&mut self, s: &str)
        ensures
            final(self)@ == old(self)@ + s@,
            final(self).wf(),
    {
        let mut tail = chars_of(s);
        self.characters.append(&mut tail);
        self.render = Row::expand(&self.characters);
    }

    /// Keeps the characters before `from` and hands back the rest.
    pub fn rowsplit(&mut self, from: usize) -> (rest: String)
        requires
            from <= old(self)@.len(),
        ensures
            final(self)@ == old(self)@.take(from as int),
            rest@ == old(self)@.skip(from as int),
            final(self).wf(),
    {
        let next_row = self.characters.split_off(from);
        self.render = Row::expand(&self.characters);
        string_of(next_row.as_slice())
    }
}

} // verus!
