//! The grid list controller: the same query/filter/selection contract as
//! the sectioned list, but the entries are laid out in a fixed-width grid
//! and the cursor is a flat index reinterpreted as (row, column).

use vstd::prelude::*;
use vstd::string::*;

use crate::filter::{rank_uniform, ranked_ok, zero_prs};
use crate::list::{indices_ok, wrap_step, wrapped_position};

verus! {

/// One entry of the emoji grid: the emoji itself and the searchable name.
pub struct EmojiEntry {
    /// The emoji character sequence placed on the clipboard on confirm.
    pub emoji: String,
    /// The name the filter matches the query against.
    pub name: String,
}

impl Clone for EmojiEntry {
    fn clone(&self) -> (r: Self)
        ensures
            r == *self,
    {
        EmojiEntry { emoji: self.emoji.clone(), name: self.name.clone() }
    }
}

/// The names of a sequence of grid entries, in order.
pub open spec fn entry_names(entries: Seq<EmojiEntry>) -> Seq<Seq<char>> {
    entries.map_values(|e: EmojiEntry| e.name@)
}

/// The grid list controller: entries, current query, filtered view,
/// selection cursor, and the fixed grid width used to reinterpret the
/// flat cursor as (row, column).
pub struct EmojiGridDelegate {
    /// The backing entries, supplied at mode entry.
    pub entries: Vec<EmojiEntry>,
    /// The current query string.
    pub query: String,
    /// The filtered view: indices into `entries`, in display order.
    pub filtered: Vec<usize>,
    /// The selection cursor: a position in the filtered view, or `None`
    /// exactly when the view is empty.
    pub selected: Option<usize>,
    /// Number of columns of the grid; always positive.
    pub width: usize,
}

impl EmojiGridDelegate {
    /// Well-formedness: filtered indices point into the entries, the
    /// width is positive, and the cursor is a valid position exactly when
    /// the view is non-empty.
    pub open spec fn wf(&self) -> bool {
        &&& indices_ok(self.filtered@, self.entries@.len() as int)
        &&& self.width > 0
        &&& match self.selected {
            Some(s) => s < self.filtered@.len(),
            None => self.filtered@.len() == 0,
        }
    }

    /// The entry under the cursor, if any.
    pub open spec fn spec_selected_entry(&self) -> Option<EmojiEntry> {
        match self.selected {
            Some(s) => if s < self.filtered@.len() && self.filtered@[s as int]
                < self.entries@.len() {
                Some(self.entries@[self.filtered@[s as int] as int])
            } else {
                None
            },
            None => None,
        }
    }

    /// Construct an empty grid controller with the given column count;
    /// the entries are supplied separately at mode entry.
    pub fn new(width: usize) -> (r: Self)
        requires
            width > 0,
        ensures
            r.wf(),
            r.entries@.len() == 0,
            r.query@ == Seq::<char>::empty(),
            r.filtered@.len() == 0,
            r.selected is None,
            r.width == width,
    {
        EmojiGridDelegate {
            entries: Vec::new(),
            query: String::new(),
            filtered: Vec::new(),
            selected: None,
            width,
        }
    }

    /// Replace the backing entries and refilter with the current query;
    /// the cursor keeps its position, clamped into the new view.
    pub fn set_items(&mut self, entries: Vec<EmojiEntry>)
        requires
            old(self).wf(),
        ensures
            final(self).wf(),
            final(self).entries@ == entries@,
            final(self).query@ == old(self).query@,
            final(self).width == old(self).width,
            ranked_ok(
                entry_names(entries@),
                zero_prs(entries@.len()),
                old(self).query@,
                final(self).filtered@,
            ),
            final(self).selected == clamp_cursor(
                old(self).selected,
                final(self).filtered@.len() as int,
            ),
    {
        self.entries = entries;
        let ranked = self.filter_now();
        let count = ranked.len();
        self.filtered = ranked;
        self.selected = match self.selected {
            Some(s) => if count == 0 {
                None
            } else if s < count {
                Some(s)
            } else {
                Some(count - 1)
            },
            None => if count == 0 {
                None
            } else {
                Some(0)
            },
        };
    }

    /// Record the query; the view is recomputed by `filter`.
    pub fn set_query(&mut self, query: String)
        ensures
            *final(self) == (EmojiGridDelegate { query, ..*old(self) }),
    {
        self.query = query;
    }

    /// Recompute the filtered view for the current query and reset the
    /// cursor to the first entry.
    pub fn filter(&mut self)
        requires
            old(self).wf(),
        ensures
            final(self).wf(),
            final(self).entries@ == old(self).entries@,
            final(self).query@ == old(self).query@,
            final(self).width == old(self).width,
            ranked_ok(
                entry_names(old(self).entries@),
                zero_prs(old(self).entries@.len()),
                old(self).query@,
                final(self).filtered@,
            ),
            final(self).selected == (if final(self).filtered@.len() > 0 {
                Some(0usize)
            } else {
                None::<usize>
            }),
    {
        let ranked = self.filter_now();
        let count = ranked.len();
        self.filtered = ranked;
        self.selected = if count > 0 {
            Some(0)
        } else {
            None
        };
    }

    /// Rank the entries against the current query.
    fn filter_now(&self) -> (r: Vec<usize>)
        ensures
            ranked_ok(
                entry_names(self.entries@),
                zero_prs(self.entries@.len()),
                self.query@,
                r@,
            ),
            indices_ok(r@, self.entries@.len() as int),
    {
        let n = self.entries.len();
        let mut names: Vec<String> = Vec::new();
        let mut i: usize = 0;
        while i < n
            invariant
                n == self.entries@.len(),
                i <= n,
                names@.len() == i,
                forall|k: int| 0 <= k < i ==> (#[trigger] names@[k])@ == self.entries@[k].name@,
            decreases n - i,
        {
            names.push(self.entries[i].name.clone());
            i = i + 1;
        }
        proof {
            assert(names.deep_view() =~= entry_names(self.entries@)) by {
                assert forall|k: int| 0 <= k < n implies names.deep_view()[k] == entry_names(
                    self.entries@,
                )[k] by {
                    assert(names.deep_view()[k] == names@[k]@);
                    assert(entry_names(self.entries@)[k] == self.entries@[k].name@);
                }
            }
        }
        rank_uniform(&names, self.query.as_str())
    }

    /// The number of positions in the filtered view.
    pub fn filtered_count(&self) -> (r: usize)
        ensures
            r == self.filtered@.len(),
    {
        self.filtered.len()
    }

    /// The current query.
    pub fn query(&self) -> (r: &str)
        ensures
            r@ == self.query@,
    {
        self.query.as_str()
    }

    /// The cursor position, if the view is non-empty.
    pub fn selected_index(&self) -> (r: Option<usize>)
        ensures
            r == self.selected,
    {
        self.selected
    }

    /// The grid row of the cursor: its flat position divided by the
    /// width.
    pub fn selected_row(&self) -> (r: Option<usize>)
        requires
            self.wf(),
        ensures
            r == (match self.selected {
                Some(s) => Some((s as int / self.width as int) as usize),
                None => None::<usize>,
            }),
    {
        match self.selected {
            Some(s) => Some(s / self.width),
            None => None,
        }
    }

    /// The grid column of the cursor: its flat position modulo the
    /// width.
    pub fn selected_col(&self) -> (r: Option<usize>)
        requires
            self.wf(),
        ensures
            r == (match self.selected {
                Some(s) => Some((s as int % self.width as int) as usize),
                None => None::<usize>,
            }),
    {
        match self.selected {
            Some(s) => Some(s % self.width),
            None => None,
        }
    }

    /// Move to the next entry: linear step with wraparound, so the grid
    /// and the list share one "next" semantic.
    pub fn select_right(&mut self)
        requires
            old(self).wf(),
        ensures
            final(self).wf(),
            move_post(*old(self), *final(self), 1),
    {
        self.step_by(1);
    }

    /// Move to the previous entry: linear step with wraparound.
    pub fn select_left(&mut self)
        requires
            old(self).wf(),
        ensures
            final(self).wf(),
            move_post(*old(self), *final(self), -1),
    {
        self.step_by(-1);
    }

    /// Move down: aliased to the linear next step, matching the observed
    /// behavior of the grid rather than true row-relative movement.
    pub fn select_down(&mut self)
        requires
            old(self).wf(),
        ensures
            final(self).wf(),
            move_post(*old(self), *final(self), 1),
    {
        self.step_by(1);
    }

    /// Move up: aliased to the linear previous step, matching the
    /// observed behavior of the grid rather than true row-relative
    /// movement.
    pub fn select_up(&mut self)
        requires
            old(self).wf(),
        ensures
            final(self).wf(),
            move_post(*old(self), *final(self), -1),
    {
        self.step_by(-1);
    }

    /// Advance the cursor by `delta` positions with wraparound; a no-op
    /// when the view is empty.
    pub(crate) fn step_by(&mut self, delta: isize)
        requires
            old(self).wf(),
        ensures
            final(self).wf(),
            move_post(*old(self), *final(self), delta as int),
    {
        let count = self.filtered.len();
        if count == 0 {
            return;
        }
        let cur = match self.selected {
            Some(s) => s,
            None => 0,
        };
        let next = wrapped_position(cur, delta, count);
        self.selected = Some(next);
    }

    /// The entry under the cursor, if any, as a copy.
    pub fn selected_entry(&self) -> (r: Option<EmojiEntry>)
        requires
            self.wf(),
        ensures
            r == self.spec_selected_entry(),
    {
        match self.selected {
            Some(s) => {
                let ix = self.filtered[s];
                Some(self.entries[ix].clone())
            },
            None => None,
        }
    }

    /// The entry a confirm action hands to the host: the entry under the
    /// cursor, if any.
    pub fn do_confirm(&self) -> (r: Option<EmojiEntry>)
        requires
            self.wf(),
        ensures
            r == self.spec_selected_entry(),
    {
        self.selected_entry()
    }
}

/// The cursor after a backing-set change: kept and clamped into the new
/// view when possible, `None` exactly when the new view is empty.
pub open spec fn clamp_cursor(old_sel: Option<usize>, count: int) -> Option<usize> {
    match old_sel {
        Some(s) => if count == 0 {
            None::<usize>
        } else if s < count {
            Some(s)
        } else {
            Some((count - 1) as usize)
        },
        None => if count == 0 {
            None::<usize>
        } else {
            Some(0usize)
        },
    }
}

/// How a navigation step changes a grid controller: only the cursor
/// moves, wrapping around the filtered view; nothing happens on an empty
/// view.
pub open spec fn move_post(pre: EmojiGridDelegate, post: EmojiGridDelegate, delta: int) -> bool {
    &&& post.entries@ == pre.entries@
    &&& post.query@ == pre.query@
    &&& post.filtered@ == pre.filtered@
    &&& post.width == pre.width
    &&& pre.filtered@.len() == 0 ==> post.selected == pre.selected
    &&& pre.filtered@.len() > 0 ==> post.selected == Some(
        wrap_step(pre.selected->0 as int, delta, pre.filtered@.len() as int) as usize,
    )
}

} // verus!
