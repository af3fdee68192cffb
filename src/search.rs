//! Incremental search: literal, case-sensitive substring search over the
//! rows, stepping forward or backward with wraparound.
use vstd::prelude::*;

use crate::editor::{Editor, EditorView, SearchDirection};
use crate::keys::PromptKey;
use crate::text::chars_of;

verus! {

/// `q` stands in `line` from index `k` on.
pub open spec fn occurs_at(line: Seq<char>, q: Seq<char>, k: int) -> bool {
    0 <= k && k + q.len() <= line.len() && line.subrange(k, k + q.len()) == q
}

/// The first index from `k` on where `q` stands in `line`; an empty query
/// is found nowhere.
pub open spec fn find_from(line: Seq<char>, q: Seq<char>, k: int) -> Option<int>
    decreases line.len() - k,
{
    if q.len() == 0 || k < 0 || k + q.len() > line.len() {
        None
    } else if line.subrange(k, k + q.len()) == q {
        Some(k)
    } else {
        find_from(line, q, k + 1)
    }
}

/// The first index where `q` stands in `line`.
pub open spec fn first_match(line: Seq<char>, q: Seq<char>) -> Option<int> {
    find_from(line, q, 0)
}

/// The row after `cur` in a search over `n` rows: forward wraps from the
/// last row (or the position past it) to row 0, backward from row 0 to the
/// last row.
pub open spec fn step_row(n: int, cur: int, forward: bool) -> int {
    if forward {
        if cur + 1 >= n {
            0
        } else {
            cur + 1
        }
    } else {
        if cur == 0 {
            n - 1
        } else {
            cur - 1
        }
    }
}

/// The first row holding `q` among the `k` rows that follow `cur`.
pub open spec fn scan(rows: Seq<Seq<char>>, q: Seq<char>, cur: int, forward: bool, k: nat) -> Option<
    int,
>
    decreases k,
{
    if k == 0 {
        None
    } else {
        let next = step_row(rows.len() as int, cur, forward);
        if first_match(rows[next], q) is Some {
            Some(next)
        } else {
            scan(rows, q, next, forward, (k - 1) as nat)
        }
    }
}

impl EditorView {
    /// The state after one search event with query `q`. Confirming or
    /// cancelling ends the search: the last match is forgotten and the
    /// direction is forward again, the cursor stays. A typed character
    /// starts over from the top, forward; next steps forward and previous
    /// steps backward from the last match. Without a last match the search
    /// starts from the position past the last row, so that a forward search
    /// begins at the first row and a backward one at the last row; so does
    /// a last match that is no longer a row, which is kept until a hit
    /// replaces it. At most every row is looked at once; on a
    /// hit the cursor goes to the first occurrence in that row and the row
    /// offset is set past the end, for the next scroll to bring it back.
    pub open spec fn searched(self, q: Seq<char>, event: PromptKey) -> EditorView {
        let n = self.rows.len() as int;
        match event {
            PromptKey::Enter | PromptKey::Escape => EditorView {
                last_match: None,
                direction: SearchDirection::Forward,
                ..self
            },
            _ => {
                let kept = match event {
                    PromptKey::Char(_) => None,
                    _ => self.last_match,
                };
                let dir = if event == PromptKey::Prev {
                    SearchDirection::Backward
                } else {
                    SearchDirection::Forward
                };
                let start = match kept {
                    Some(l) => if 0 <= l < n {
                        l
                    } else {
                        n
                    },
                    None => n,
                };
                match scan(self.rows, q, start, dir == SearchDirection::Forward, n as nat) {
                    Some(r) => EditorView {
                        last_match: Some(r),
                        direction: dir,
                        cy: r,
                        cx: first_match(self.rows[r], q)->0,
                        rowoff: n,
                        ..self
                    },
                    None => EditorView { last_match: kept, direction: dir, ..self },
                }
            },
        }
    }
}

/// `line[k..k + q.len()]` equals `q`.
fn matches_at(line: &Vec<char>, q: &Vec<char>, k: usize) -> (r: bool)
    requires
        k + q@.len() <= line@.len(),
    ensures
        r == (line@.subrange(k as int, k + q@.len()) == q@),
{
    let m = q.len();
    let n = line.len();
    let mut j: usize = 0;
    while j < m
        invariant
            m == q@.len(),
            n == line@.len(),
            k + m <= n,
            j <= m,
            forall|i: int| 0 <= i < j ==> line@[k + i] == q@[i],
        decreases m - j,
    {
        if line[k + j] != q[j] {
            assert(line@.subrange(k as int, k + m)[j as int] != q@[j as int]);
            return false;
        }
        j = j + 1;
    }
    assert(line@.subrange(k as int, k + m) =~= q@);
    true
}

/// The first index where `q` stands in `line`.
pub fn find_in_line(line: &Vec<char>, q: &Vec<char>) -> (r: Option<usize>)
    ensures
        match r {
            Some(k) => first_match(line@, q@) == Some(k as int),
            None => first_match(line@, q@) is None,
        },
{
    let n = line.len();
    let m = q.len();
    if m == 0 || m > n {
        return None;
    }
    let mut k: usize = 0;
    while k <= n - m
        invariant
            n == line@.len(),
            m == q@.len(),
            0 < m <= n,
            k <= n - m + 1,
            find_from(line@, q@, 0) == find_from(line@, q@, k as int),
        decreases n - m + 1 - k,
    {
        if matches_at(line, q, k) {
            return Some(k);
        }
        k = k + 1;
    }
    None
}

impl Editor {
    /// One step of an incremental search for `query`.
    pub fn find_callback(&mut self, query: &str, event: PromptKey)
        requires
            old(self).wf(),
        ensures
            final(self).wf(),
            final(self)@ == old(self)@.searched(query@, event),
    {
        let ghost v = self@;
        let q = chars_of(query);
        let n = self.rows.len();
        proof {
            self.lemma_rows_view();
        }
        match event {
            PromptKey::Enter | PromptKey::Escape => {
                self.last_match = None;
                self.direction = SearchDirection::Forward;
                return;
            },
            PromptKey::Char(_) => {
                self.last_match = None;
            },
            _ => {},
        }
        self.direction = if event == PromptKey::Prev {
            SearchDirection::Backward
        } else {
            SearchDirection::Forward
        };
        let forward = self.direction == SearchDirection::Forward;
        let start = match self.last_match {
            Some(l) => if l < n {
                l
            } else {
                n
            },
            None => n,
        };
        let ghost found = scan(v.rows, q@, start as int, forward, n as nat);
        let ghost base = self@;
        assert(v.searched(query@, event) == match found {
            Some(r) => EditorView {
                last_match: Some(r),
                cy: r,
                cx: first_match(v.rows[r], q@)->0,
                rowoff: n as int,
                ..base
            },
            None => base,
        });
        let mut current = start;
        let mut i: usize = 0;
        while i < n
            invariant
                n == self.rows@.len(),
                n == v.rows.len(),
                v == old(self)@,
                n <= crate::editor::MAX_ROWS,
                i <= n,
                current <= n,
                self.wf(),
                self@ == base,
                base == (EditorView { last_match: base.last_match, direction: base.direction, ..v }),
                v.searched(query@, event) == match found {
                    Some(r) => EditorView {
                        last_match: Some(r),
                        cy: r,
                        cx: first_match(v.rows[r], q@)->0,
                        rowoff: n as int,
                        ..base
                    },
                    None => base,
                },
                forall|j: int| 0 <= j < n ==> #[trigger] v.rows[j] == self.rows@[j]@,
                found == scan(v.rows, q@, current as int, forward, (n - i) as nat),
            decreases n - i,
        {
            let ghost prev = current;
            current = if forward {
                if current + 1 >= n {
                    0
                } else {
                    current + 1
                }
            } else {
                if current == 0 {
                    n - 1
                } else {
                    current - 1
                }
            };
            if let Some(m) = find_in_line(&self.rows[current].characters, &q) {
                proof {
                    lemma_match_fits(v.rows[current as int], q@, 0);
                    assert(current as int == step_row(n as int, prev as int, forward));
                    assert(found == Some(current as int));
                }
                self.last_match = Some(current);
                self.cursor.y = current as u16;
                self.cursor.x = m as u16;
                self.rowoff = n as u16;
                assert(self@ == v.searched(query@, event));
                return;
            }
            i = i + 1;
        }
        assert(self@ == v.searched(query@, event));
    }
}

/// The row reached from `cur` after `t` search steps.
pub open spec fn walk(n: int, cur: int, forward: bool, t: nat) -> int
    decreases t,
{
    if t == 0 {
        cur
    } else {
        walk(n, step_row(n, cur, forward), forward, (t - 1) as nat)
    }
}

proof fn lemma_walk_last(n: int, cur: int, forward: bool, t: nat)
    requires
        t >= 1,
    ensures
        walk(n, cur, forward, t) == step_row(n, walk(n, cur, forward, (t - 1) as nat), forward),
    decreases t,
{
    let next = step_row(n, cur, forward);
    assert(walk(n, next, forward, 0) == next);
    if t > 1 {
        lemma_walk_last(n, next, forward, (t - 1) as nat);
        assert(walk(n, cur, forward, (t - 1) as nat) == walk(n, next, forward, (t - 2) as nat));
    }
}

proof fn lemma_walk_forward(n: int, l: int, t: nat)
    requires
        0 <= l < n,
        t <= n,
    ensures
        walk(n, l, true, t) == if l + t < n {
            l + t
        } else {
            l + t - n
        },
    decreases t,
{
    if t > 0 {
        lemma_walk_forward(n, l, (t - 1) as nat);
        lemma_walk_last(n, l, true, t);
    }
}

proof fn lemma_walk_back(n: int, l: int, t: nat, s: nat)
    requires
        0 <= l < n,
        s <= t <= n,
    ensures
        walk(n, walk(n, l, true, t), false, s) == walk(n, l, true, (t - s) as nat),
    decreases s,
{
    if s > 0 {
        let m = walk(n, l, true, t);
        lemma_walk_back(n, l, t, (s - 1) as nat);
        lemma_walk_last(n, m, false, s);
        lemma_walk_last(n, l, true, (t - s + 1) as nat);
        lemma_walk_forward(n, l, (t - s) as nat);
    }
}

proof fn lemma_scan_some(rows: Seq<Seq<char>>, q: Seq<char>, cur: int, forward: bool, k: nat, t: nat)
    requires
        1 <= t <= k,
        first_match(rows[walk(rows.len() as int, cur, forward, t)], q) is Some,
    ensures
        scan(rows, q, cur, forward, k) is Some,
    decreases t,
{
    let next = step_row(rows.len() as int, cur, forward);
    if first_match(rows[next], q) is None {
        lemma_scan_some(rows, q, next, forward, (k - 1) as nat, (t - 1) as nat);
    }
}

proof fn lemma_scan_found(rows: Seq<Seq<char>>, q: Seq<char>, cur: int, forward: bool, k: nat)
    requires
        scan(rows, q, cur, forward, k) is Some,
    ensures
        exists|t: nat|
            1 <= t <= k && scan(rows, q, cur, forward, k) == Some(
                walk(rows.len() as int, cur, forward, t),
            ) && forall|e: nat|
                1 <= e < t ==> first_match(
                    rows[#[trigger] walk(rows.len() as int, cur, forward, e)],
                    q,
                ) is None,
    decreases k,
{
    let n = rows.len() as int;
    let next = step_row(n, cur, forward);
    assert(walk(n, next, forward, 0) == next);
    if first_match(rows[next], q) is Some {
        assert(walk(n, cur, forward, 1) == next);
    } else {
        lemma_scan_found(rows, q, next, forward, (k - 1) as nat);
        let t0 = choose|t: nat|
            1 <= t <= k - 1 && scan(rows, q, next, forward, (k - 1) as nat) == Some(
                walk(n, next, forward, t),
            ) && forall|e: nat|
                1 <= e < t ==> first_match(rows[#[trigger] walk(n, next, forward, e)], q) is None;
        assert(walk(n, cur, forward, t0 + 1) == walk(n, next, forward, t0));
        assert forall|e: nat| 1 <= e < t0 + 1 implies first_match(
            rows[#[trigger] walk(n, cur, forward, e)],
            q,
        ) is None by {
            assert(walk(n, cur, forward, e) == walk(n, next, forward, (e - 1) as nat));
        }
    }
}

proof fn lemma_scan_hit(rows: Seq<Seq<char>>, q: Seq<char>, cur: int, forward: bool, k: nat, t: nat)
    requires
        1 <= t <= k,
        first_match(rows[walk(rows.len() as int, cur, forward, t)], q) is Some,
        forall|e: nat|
            1 <= e < t ==> first_match(rows[#[trigger] walk(rows.len() as int, cur, forward, e)], q)
                is None,
    ensures
        scan(rows, q, cur, forward, k) == Some(walk(rows.len() as int, cur, forward, t)),
    decreases t,
{
    let n = rows.len() as int;
    let next = step_row(n, cur, forward);
    assert(walk(n, next, forward, 0) == next);
    assert(walk(n, cur, forward, 1) == next);
    if t > 1 {
        assert forall|e: nat| 1 <= e < t - 1 implies first_match(
            rows[#[trigger] walk(n, next, forward, e)],
            q,
        ) is None by {
            assert(walk(n, cur, forward, e + 1) == walk(n, next, forward, e));
        }
        lemma_scan_hit(rows, q, next, forward, (k - 1) as nat, (t - 1) as nat);
    }
}

/// Searching forward from a match and then backward from the match found
/// comes back to the match the search started from: same row, same column.
pub proof fn lemma_search_there_and_back(v: EditorView, q: Seq<char>)
    requires
        v.last_match is Some,
        0 <= v.last_match->0 < v.rows.len(),
        first_match(v.rows[v.last_match->0], q) is Some,
    ensures
        v.searched(q, PromptKey::Next).searched(q, PromptKey::Prev).last_match == v.last_match,
        v.searched(q, PromptKey::Next).searched(q, PromptKey::Prev).cy == v.last_match->0,
        v.searched(q, PromptKey::Next).searched(q, PromptKey::Prev).cx == first_match(
            v.rows[v.last_match->0],
            q,
        )->0,
{
    let n = v.rows.len() as int;
    let l = v.last_match->0;
    let rows = v.rows;
    lemma_walk_forward(n, l, n as nat);
    lemma_scan_some(rows, q, l, true, n as nat, n as nat);
    lemma_scan_found(rows, q, l, true, n as nat);
    let t0 = choose|t: nat|
        1 <= t <= n && scan(rows, q, l, true, n as nat) == Some(walk(n, l, true, t)) && forall|
            e: nat,
        |
            1 <= e < t ==> first_match(rows[#[trigger] walk(n, l, true, e)], q) is None;
    let m = walk(n, l, true, t0);
    lemma_walk_forward(n, l, t0);
    let w1 = v.searched(q, PromptKey::Next);
    assert(w1.last_match == Some(m));
    assert(w1.rows == rows);
    assert forall|s: nat| 1 <= s < t0 implies first_match(
        rows[#[trigger] walk(n, m, false, s)],
        q,
    ) is None by {
        lemma_walk_back(n, l, t0, s);
    }
    lemma_walk_back(n, l, t0, t0);
    lemma_scan_hit(rows, q, m, false, n as nat, t0);
}

/// A match found from `k` on lies within the line.
proof fn lemma_match_fits(line: Seq<char>, q: Seq<char>, k: int)
    ensures
        find_from(line, q, k) matches Some(i) ==> k <= i && i + q.len() <= line.len(),
    decreases line.len() - k,
{
    if !(q.len() == 0 || k < 0 || k + q.len() > line.len()) && line.subrange(k, k + q.len()) != q {
        lemma_match_fits(line, q, k + 1);
    }
}

} // verus!
