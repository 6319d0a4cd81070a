//! The sectioned list controller: owns a backing item collection, the
//! current query, the filtered view with its section boundaries, the
//! selection cursor, and the generation counter that guards against stale
//! background filter results.

use vstd::prelude::*;
use vstd::string::*;

use crate::filter::{filter_items_sync, item_names, item_prs, ranked_ok};
use crate::items::ListItem;

verus! {

/// One section of a filtered view: a maximal run of consecutive filtered
/// positions whose items share a sort priority.
#[derive(Clone, Copy)]
pub struct Section {
    /// The shared sort priority of the items in this section.
    pub priority: u8,
    /// First filtered position belonging to this section.
    pub start: usize,
    /// Number of filtered positions in this section; always positive.
    pub len: usize,
}

/// The priorities of the items of a filtered view, position by position.
pub open spec fn filtered_prs(items: Seq<ListItem>, filtered: Seq<usize>) -> Seq<u8> {
    filtered.map_values(|ix: usize| items[ix as int].spec_sort_priority())
}

/// The sections tile the positions `0..n` without gap or overlap: the
/// first starts at zero, each later one starts where its predecessor ends,
/// every section is non-empty, and the last ends at `n`.
pub open spec fn sections_cover(n: int, secs: Seq<Section>) -> bool {
    &&& (n == 0 ==> secs.len() == 0)
    &&& (n > 0 ==> secs.len() > 0 && secs[0].start == 0 && secs[secs.len() - 1].start
        + secs[secs.len() - 1].len == n)
    &&& forall|k: int| 0 <= k < secs.len() ==> (#[trigger] secs[k]).len > 0
    &&& forall|k: int|
        0 < k < secs.len() ==> (#[trigger] secs[k]).start == secs[k - 1].start + secs[k
            - 1].len
}

/// Position `i` lies inside section `k`.
pub open spec fn in_section(secs: Seq<Section>, k: int, i: int) -> bool {
    0 <= k < secs.len() && secs[k].start <= i < secs[k].start + secs[k].len
}

/// Some section contains position `i`.
pub open spec fn covered_position(secs: Seq<Section>, i: int) -> bool {
    exists|k: int| in_section(secs, k, i)
}

/// Every section is labeled with the priority its positions carry, and
/// adjacent sections carry different priorities (so sections are maximal
/// runs).
pub open spec fn sections_labeled(prs: Seq<u8>, secs: Seq<Section>) -> bool {
    &&& forall|k: int, o: int|
        #![trigger secs[k], prs[o]]
        0 <= k < secs.len() && secs[k].start <= o < secs[k].start + secs[k].len ==> prs[o]
            == secs[k].priority
    &&& forall|k: int| 0 < k < secs.len() ==> (#[trigger] secs[k]).priority != secs[k - 1].priority
}

/// All indices of a ranked result point into a collection of `n` items.
pub open spec fn indices_ok(ranked: Seq<usize>, n: int) -> bool {
    forall|k: int| 0 <= k < ranked.len() ==> (#[trigger] ranked[k]) < n
}

/// The wrapped cursor position after moving `delta` steps from `cur` in a
/// view of `n` positions.
pub open spec fn wrap_step(cur: int, delta: int, n: int) -> int {
    (((cur + delta) % n) + n) % n
}

/// What applying a filter result does to a controller: a result whose
/// generation does not match the current one, or whose indices do not
/// fit the backing collection, changes nothing; a fresh result replaces
/// the view and resets the cursor to the first position.
pub open spec fn apply_outcome(
    pre: ItemListDelegate,
    query: Seq<char>,
    generation: u64,
    ranked: Seq<usize>,
    post: ItemListDelegate,
) -> bool {
    &&& (generation != pre.generation ==> post == pre)
    &&& (generation == pre.generation && !indices_ok(ranked, pre.items@.len() as int)
        ==> post == pre)
    &&& (generation == pre.generation && indices_ok(ranked, pre.items@.len() as int) ==> ({
        &&& post.items@ == pre.items@
        &&& post.query@ == query
        &&& post.generation == pre.generation
        &&& post.filtered@ == ranked
        &&& post.selected == (if ranked.len() > 0 {
            Some(0usize)
        } else {
            None::<usize>
        })
    }))
}

/// One unit of background filter work: an immutable snapshot of the items,
/// the query to filter them with, and the generation the result must match
/// to be applied.
pub struct FilterJob {
    /// Snapshot of the backing items at request time.
    pub items: Vec<ListItem>,
    /// The query this job filters for.
    pub query: String,
    /// The generation the result will carry back.
    pub generation: u64,
}

/// The sectioned list controller for the main launcher list: backing
/// items, current query, filtered view, section boundaries, selection
/// cursor and pending-filter generation counter.
pub struct ItemListDelegate {
    /// The backing item collection, supplied once at construction.
    pub items: Vec<ListItem>,
    /// The current query string.
    pub query: String,
    /// The filtered view: indices into `items`, in display order.
    pub filtered: Vec<usize>,
    /// Section boundaries of the filtered view.
    pub sections: Vec<Section>,
    /// The selection cursor: a position in the filtered view, or `None`
    /// exactly when the view is empty.
    pub selected: Option<usize>,
    /// Generation of the most recent filter request; results carrying any
    /// other generation are discarded.
    pub generation: u64,
}

impl ItemListDelegate {
    /// Well-formedness: filtered indices point into the items, the
    /// sections tile and label the filtered view, and the cursor is a
    /// valid position exactly when the view is non-empty.
    pub open spec fn wf(&self) -> bool {
        &&& indices_ok(self.filtered@, self.items@.len() as int)
        &&& sections_cover(self.filtered@.len() as int, self.sections@)
        &&& sections_labeled(filtered_prs(self.items@, self.filtered@), self.sections@)
        &&& match self.selected {
            Some(s) => s < self.filtered@.len(),
            None => self.filtered@.len() == 0,
        }
    }

    /// The item under the cursor, if any.
    pub open spec fn spec_selected_item(&self) -> Option<ListItem> {
        match self.selected {
            Some(s) => if s < self.filtered@.len() && self.filtered@[s as int]
                < self.items@.len() {
                Some(self.items@[self.filtered@[s as int] as int])
            } else {
                None
            },
            None => None,
        }
    }

    /// Construct a controller over a backing collection: the query starts
    /// empty and the view shows every item, grouped by priority.
    pub fn new(items: Vec<ListItem>) -> (r: Self)
        ensures
            r.wf(),
            r.items@ == items@,
            r.query@ == Seq::<char>::empty(),
            r.generation == 0,
            ranked_ok(item_names(items@), item_prs(items@), Seq::<char>::empty(), r.filtered@),
            r.selected == (if r.filtered@.len() > 0 {
                Some(0usize)
            } else {
                None::<usize>
            }),
    {
        proof {
            reveal_strlit("");
            assert(""@ =~= Seq::<char>::empty());
        }
        let ranked = filter_items_sync(&items, "");
        let sections = build_sections(&items, &ranked);
        let selected: Option<usize> = if ranked.len() > 0 {
            Some(0)
        } else {
            None
        };
        ItemListDelegate {
            items,
            query: String::new(),
            filtered: ranked,
            sections,
            selected,
            generation: 0,
        }
    }

    /// A snapshot of the backing items, for handing to a background
    /// worker.
    pub fn items(&self) -> (r: Vec<ListItem>)
        ensures
            r@ == self.items@,
    {
        clone_items(&self.items)
    }

    /// Record the query immediately, without recomputing the filtered
    /// view; recomputation happens when the filter result is applied.
    pub fn set_query_only(&mut self, query: String)
        ensures
            *final(self) == (ItemListDelegate { query, ..*old(self) }),
    {
        self.query = query;
    }

    /// Start a new filter request: record the query, advance the
    /// generation (saturating at the counter's maximum), and hand back a
    /// job with a snapshot of the items. Results of earlier jobs no longer
    /// match the generation and will be discarded.
    pub fn request_filter(&mut self, query: String) -> (job: FilterJob)
        ensures
            *final(self) == (ItemListDelegate {
                query,
                generation: final(self).generation,
                ..*old(self)
            }),
            final(self).generation == (if old(self).generation < u64::MAX {
                (old(self).generation + 1) as u64
            } else {
                u64::MAX
            }),
            job.items@ == old(self).items@,
            job.query@ == query@,
            job.generation == final(self).generation,
    {
        if self.generation < u64::MAX {
            self.generation = self.generation + 1;
        }
        let job = FilterJob {
            items: clone_items(&self.items),
            query: query.clone(),
            generation: self.generation,
        };
        self.query = query;
        job
    }

    /// Apply a background filter result. A result whose generation does
    /// not match the current one is stale and is discarded without any
    /// state change; so is a result whose indices do not fit the backing
    /// collection. A fresh result replaces the filtered view and its
    /// sections and resets the cursor to the first position.
    pub fn apply_filter_results(&mut self, query: String, generation: u64, ranked: Vec<usize>)
        requires
            old(self).wf(),
        ensures
            final(self).wf(),
            apply_outcome(*old(self), query@, generation, ranked@, *final(self)),
    {
        if generation != self.generation {
            return;
        }
        if !check_indices(&ranked, self.items.len()) {
            return;
        }
        let sections = build_sections(&self.items, &ranked);
        let selected: Option<usize> = if ranked.len() > 0 {
            Some(0)
        } else {
            None
        };
        self.query = query;
        self.filtered = ranked;
        self.sections = sections;
        self.selected = selected;
    }

    /// Clear the query and show the full collection again, grouped by
    /// priority; the generation advances so that any in-flight filter
    /// result is discarded when it arrives.
    pub fn clear_query(&mut self)
        ensures
            final(self).wf(),
            final(self).items@ == old(self).items@,
            final(self).query@ == Seq::<char>::empty(),
            final(self).generation == (if old(self).generation < u64::MAX {
                (old(self).generation + 1) as u64
            } else {
                u64::MAX
            }),
            ranked_ok(
                item_names(old(self).items@),
                item_prs(old(self).items@),
                Seq::<char>::empty(),
                final(self).filtered@,
            ),
            final(self).selected == (if final(self).filtered@.len() > 0 {
                Some(0usize)
            } else {
                None::<usize>
            }),
    {
        proof {
            reveal_strlit("");
            assert(""@ =~= Seq::<char>::empty());
        }
        let ranked = filter_items_sync(&self.items, "");
        let sections = build_sections(&self.items, &ranked);
        let selected: Option<usize> = if ranked.len() > 0 {
            Some(0)
        } else {
            None
        };
        if self.generation < u64::MAX {
            self.generation = self.generation + 1;
        }
        self.query = String::new();
        self.filtered = ranked;
        self.sections = sections;
        self.selected = selected;
    }

    /// The number of positions in the filtered view.
    pub fn filtered_count(&self) -> (r: usize)
        ensures
            r == self.filtered@.len(),
    {
        self.filtered.len()
    }

    /// The current query.
    pub fn query(&self) -> (r: &str)
        ensures
            r@ == self.query@,
    {
        self.query.as_str()
    }

    /// The cursor position, if the view is non-empty.
    pub fn selected_index(&self) -> (r: Option<usize>)
        ensures
            r == self.selected,
    {
        self.selected
    }

    /// Move the cursor to position `i`, clamped into the filtered view;
    /// with an empty view the cursor stays `None`.
    pub fn set_selected(&mut self, i: usize)
        requires
            old(self).wf(),
        ensures
            final(self).wf(),
            *final(self) == (ItemListDelegate { selected: final(self).selected, ..*old(self) }),
            final(self).selected == (if old(self).filtered@.len() == 0 {
                None::<usize>
            } else if i < old(self).filtered@.len() {
                Some(i)
            } else {
                Some((old(self).filtered@.len() - 1) as usize)
            }),
    {
        let count = self.filtered.len();
        if count == 0 {
            self.selected = None;
        } else if i < count {
            self.selected = Some(i);
        } else {
            self.selected = Some(count - 1);
        }
    }

    /// Advance the cursor by `delta` positions, wrapping at both ends.
    /// A no-op when the filtered view is empty.
    pub fn move_selection(&mut self, delta: isize)
        requires
            old(self).wf(),
        ensures
            final(self).wf(),
            *final(self) == (ItemListDelegate { selected: final(self).selected, ..*old(self) }),
            old(self).filtered@.len() == 0 ==> final(self).selected == old(self).selected,
            old(self).filtered@.len() > 0 ==> ({
                let cur = old(self).selected->0 as int;
                final(self).selected == Some(
                    wrap_step(cur, delta as int, old(self).filtered@.len() as int) as usize,
                )
            }),
    {
        let count = self.filtered.len();
        if count == 0 {
            return;
        }
        let cur = match self.selected {
            Some(s) => s,
            None => 0,
        };
        let next = wrapped_position(cur, delta, count);
        self.selected = Some(next);
    }

    /// The item under the cursor, if any, as a copy.
    pub fn selected_item(&self) -> (r: Option<ListItem>)
        requires
            self.wf(),
        ensures
            r == self.spec_selected_item(),
    {
        match self.selected {
            Some(s) => {
                let ix = self.filtered[s];
                Some(self.items[ix].clone())
            },
            None => None,
        }
    }

    /// The item a confirm action hands to the host: the item under the
    /// cursor, if any. Interpreting it is the mode controller's job.
    pub fn do_confirm(&self) -> (r: Option<ListItem>)
        requires
            self.wf(),
        ensures
            r == self.spec_selected_item(),
    {
        self.selected_item()
    }

    /// Map a flat filtered position to its (section ordinal, row within
    /// the section) pair. An out-of-range position is clamped to the last
    /// one; with an empty view the result is (0, 0).
    #[verifier::rlimit(50)]
    pub fn global_to_section_row(&self, i: usize) -> (r: (usize, usize))
        requires
            self.wf(),
        ensures
            self.filtered@.len() == 0 ==> r == (0usize, 0usize),
            self.filtered@.len() > 0 ==> ({
                let ci = if i < self.filtered@.len() {
                    i as int
                } else {
                    self.filtered@.len() - 1
                };
                in_section(self.sections@, r.0 as int, ci) && r.1 == ci - self.sections@[r.0 as int].start
            }),
    {
        let count = self.filtered.len();
        if count == 0 {
            return (0, 0);
        }
        let ci = if i < count {
            i
        } else {
            count - 1
        };
        let nsec = self.sections.len();
        let mut k: usize = 0;
        while ci - self.sections[k].start >= self.sections[k].len
            invariant
                sections_cover(count as int, self.sections@),
                count == self.filtered@.len(),
                nsec == self.sections@.len(),
                count > 0,
                ci < count,
                k < nsec,
                self.sections@[k as int].start <= ci,
            decreases self.sections@.len() - k,
        {
            proof {
                if k == self.sections@.len() - 1 {
                    assert(self.sections@[k as int].start + self.sections@[k as int].len
                        == count);
                    assert(false);
                }
            }
            k = k + 1;
        }
        let row = ci - self.sections[k].start;
        (k, row)
    }

    /// Map a (section ordinal, row) pair back to the flat filtered
    /// position. Out-of-range ordinals and rows are clamped; with an empty
    /// view the result is 0.
    pub fn section_row_to_global(&self, section: usize, row: usize) -> (r: usize)
        requires
            self.wf(),
        ensures
            self.filtered@.len() == 0 ==> r == 0,
            self.filtered@.len() > 0 ==> ({
                let s = if section < self.sections@.len() {
                    section as int
                } else {
                    self.sections@.len() - 1
                };
                let rr = if row < self.sections@[s].len {
                    row as int
                } else {
                    self.sections@[s].len - 1
                };
                r == self.sections@[s].start + rr
            }),
    {
        let count = self.filtered.len();
        let nsec = self.sections.len();
        if nsec == 0 {
            return 0;
        }
        let s = if section < nsec {
            section
        } else {
            nsec - 1
        };
        let sec = self.sections[s];
        let rr = if row < sec.len {
            row
        } else {
            sec.len - 1
        };
        proof {
            if (s as int) < self.sections@.len() - 1 {
                lemma_sections_monotone(self.sections@, s as int, self.sections@.len() - 1);
            }
            assert(self.sections@[s as int].start + self.sections@[s as int].len
                <= count);
        }
        sec.start + rr
    }
}

/// Check that every index of a ranked result points into a collection of
/// `n` items.
fn check_indices(ranked: &Vec<usize>, n: usize) -> (r: bool)
    ensures
        r == indices_ok(ranked@, n as int),
{
    let mut k: usize = 0;
    while k < ranked.len()
        invariant
            k <= ranked@.len(),
            forall|t: int| 0 <= t < k ==> (#[trigger] ranked@[t]) < n,
        decreases ranked@.len() - k,
    {
        if ranked[k] >= n {
            return false;
        }
        k = k + 1;
    }
    true
}

/// Clone a collection of items, element for element.
pub(crate) fn clone_items(items: &Vec<ListItem>) -> (r: Vec<ListItem>)
    ensures
        r@ == items@,
{
    let r = items.clone();
    proof {
        assert(r@ =~= items@) by {
            assert forall|k: int| 0 <= k < items@.len() implies r@[k] == items@[k] by {
                assert(vstd::pervasive::cloned::<ListItem>(items@[k], r@[k]));
            }
        }
    }
    r
}

/// The wrapped position reached from `cur` after `delta` steps in a view
/// of `count` positions.
pub(crate) fn wrapped_position(cur: usize, delta: isize, count: usize) -> (r: usize)
    requires
        count > 0,
        cur < count,
    ensures
        r < count,
        r as int == wrap_step(cur as int, delta as int, count as int),
{
    let ghost m = count as int;
    let ghost c = cur as int;
    let ghost d = delta as int;
    let next: usize;
    if delta >= 0 {
        let step = (delta as usize) % count;
        if step < count - cur {
            next = cur + step;
        } else {
            next = cur - (count - step);
        }
        proof {
            let s = step as int;
            vstd::arithmetic::div_mod::lemma_fundamental_div_mod(d, m);
            let q = d / m;
            assert(s == d - m * q);
            if s < m - c {
                lemma_multiple_mod_zero(c + d - next as int, q, m);
            } else {
                assert(m * (q + 1) == m * q + m) by {
                    vstd::arithmetic::mul::lemma_mul_is_distributive_add(m, q, 1);
                }
                lemma_multiple_mod_zero(c + d - next as int, q + 1, m);
            }
        }
    } else {
        let mag = ((-(delta + 1)) as usize) + 1;
        let step = mag % count;
        if step <= cur {
            next = cur - step;
        } else {
            next = cur + (count - step);
        }
        proof {
            let s = step as int;
            assert(mag as int == -d);
            vstd::arithmetic::div_mod::lemma_fundamental_div_mod(-d, m);
            let q = (-d) / m;
            assert(s == -d - m * q);
            assert(m * (0 - q) == m * 0 - m * q) by {
                vstd::arithmetic::mul::lemma_mul_is_distributive_sub(m, 0, q);
            }
            if s <= c {
                lemma_multiple_mod_zero(c + d - next as int, -q, m);
            } else {
                assert(m * (0 - (q + 1)) == m * 0 - m * (q + 1)) by {
                    vstd::arithmetic::mul::lemma_mul_is_distributive_sub(m, 0, q + 1);
                }
                assert(m * (q + 1) == m * q + m) by {
                    vstd::arithmetic::mul::lemma_mul_is_distributive_add(m, q, 1);
                }
                lemma_multiple_mod_zero(c + d - next as int, -(q + 1), m);
            }
        }
    }
    proof {
        vstd::arithmetic::div_mod::lemma_mod_equivalence(c + d, next as int, m);
        vstd::arithmetic::div_mod::lemma_small_mod(next as nat, count as nat);
        vstd::arithmetic::div_mod::lemma_mod_add_multiples_vanish(next as int, m);
    }
    next
}

/// A multiple of a positive `m` leaves remainder zero.
proof fn lemma_multiple_mod_zero(x: int, q: int, m: int)
    requires
        m > 0,
        x == m * q,
    ensures
        x % m == 0,
{
    vstd::arithmetic::div_mod::lemma_mod_multiples_vanish(q, 0, m);
    vstd::arithmetic::div_mod::lemma_small_mod(0nat, m as nat);
}

/// Build the section boundaries of a filtered view: maximal runs of
/// consecutive positions whose items share a sort priority.
fn build_sections(items: &Vec<ListItem>, filtered: &Vec<usize>) -> (secs: Vec<Section>)
    requires
        indices_ok(filtered@, items@.len() as int),
    ensures
        sections_cover(filtered@.len() as int, secs@),
        sections_labeled(filtered_prs(items@, filtered@), secs@),
{
    let ghost prs = filtered_prs(items@, filtered@);
    let n = filtered.len();
    let mut secs: Vec<Section> = Vec::new();
    if n == 0 {
        return secs;
    }
    let first_idx = filtered[0];
    let mut run_pr = items[first_idx].sort_priority();
    let mut run_start: usize = 0;
    let mut run_len: usize = 1;
    let mut i: usize = 1;
    proof {
        assert(prs[0] == items@[filtered@[0] as int].spec_sort_priority());
    }
    while i < n
        invariant
            n == filtered@.len(),
            indices_ok(filtered@, items@.len() as int),
            prs == filtered_prs(items@, filtered@),
            1 <= i <= n,
            run_start < i,
            run_start + run_len == i,
            run_len >= 1,
            sections_cover(run_start as int, secs@),
            sections_labeled(prs, secs@),
            secs@.len() > 0 ==> (secs@[secs@.len() - 1].start + secs@[secs@.len() - 1].len
                == run_start && secs@[secs@.len() - 1].priority != run_pr),
            run_start == 0 ==> secs@.len() == 0,
            forall|o: int| run_start <= o < i ==> prs[o] == run_pr,
        decreases n - i,
    {
        let idx = filtered[i];
        let pr = items[idx].sort_priority();
        proof {
            assert(prs[i as int] == items@[filtered@[i as int] as int].spec_sort_priority());
        }
        if pr == run_pr {
            run_len = run_len + 1;
        } else {
            let ghost secs0 = secs@;
            secs.push(Section { priority: run_pr, start: run_start, len: run_len });
            proof {
                lemma_sections_extend(prs, secs0, run_pr, run_start as int, run_len as int);
            }
            run_pr = pr;
            run_start = i;
            run_len = 1;
        }
        i = i + 1;
    }
    let ghost secs0 = secs@;
    secs.push(Section { priority: run_pr, start: run_start, len: run_len });
    proof {
        lemma_sections_extend(prs, secs0, run_pr, run_start as int, run_len as int);
    }
    secs
}

/// Appending a non-empty run that starts where the covered prefix ends,
/// with a priority different from the last section's, extends a
/// well-formed section list by one section.
proof fn lemma_sections_extend(prs: Seq<u8>, secs: Seq<Section>, pr: u8, start: int, len: int)
    requires
        sections_cover(start, secs),
        sections_labeled(prs, secs),
        secs.len() > 0 ==> secs[secs.len() - 1].priority != pr,
        start == 0 ==> secs.len() == 0,
        len >= 1,
        start + len <= prs.len(),
        0 <= start <= usize::MAX,
        0 <= len <= usize::MAX,
        forall|o: int| start <= o < start + len ==> prs[o] == pr,
    ensures
        ({
            let s2 = secs.push(
                Section { priority: pr, start: start as usize, len: len as usize },
            );
            sections_cover(start + len, s2) && sections_labeled(prs, s2) && s2[s2.len()
                - 1].start + s2[s2.len() - 1].len == start + len && s2[s2.len() - 1].priority
                == pr && s2.len() > 0
        }),
{
    let sec = Section { priority: pr, start: start as usize, len: len as usize };
    let s2 = secs.push(sec);
    assert(s2[s2.len() - 1] == sec);
    assert forall|k: int| 0 <= k < s2.len() implies (#[trigger] s2[k]).len > 0 by {
        if k < s2.len() - 1 {
            assert(s2[k] == secs[k]);
        }
    }
    assert forall|k: int| 0 < k < s2.len() implies (#[trigger] s2[k]).start == s2[k - 1].start
        + s2[k - 1].len by {
        if k < s2.len() - 1 {
            assert(s2[k] == secs[k]);
            assert(s2[k - 1] == secs[k - 1]);
        } else {
            assert(s2[k] == sec);
            if k > 0 {
                assert(s2[k - 1] == secs[k - 1]);
            }
        }
    }
    if s2.len() > 1 {
        assert(s2[0] == secs[0]);
    }
    assert forall|k: int, o: int|
        0 <= k < s2.len() && (#[trigger] s2[k]).start <= o < s2[k].start + s2[k].len
        implies #[trigger] prs[o] == s2[k].priority by {
        if k < s2.len() - 1 {
            assert(s2[k] == secs[k]);
        } else {
            assert(s2[k] == sec);
        }
    }
    assert forall|k: int| 0 < k < s2.len() implies (#[trigger] s2[k]).priority != s2[k
        - 1].priority by {
        if k < s2.len() - 1 {
            assert(s2[k] == secs[k]);
            assert(s2[k - 1] == secs[k - 1]);
        } else {
            assert(s2[k] == sec);
            assert(s2[k - 1] == secs[k - 1]);
        }
    }
}

/// Sections with consecutive starts are monotone: an earlier section ends
/// no later than a later one starts.
proof fn lemma_sections_monotone(secs: Seq<Section>, k1: int, k2: int)
    requires
        forall|k: int|
            0 < k < secs.len() ==> (#[trigger] secs[k]).start == secs[k - 1].start + secs[k
                - 1].len,
        forall|k: int| 0 <= k < secs.len() ==> (#[trigger] secs[k]).len > 0,
        0 <= k1 < k2 < secs.len(),
    ensures
        secs[k1].start + secs[k1].len <= secs[k2].start,
    decreases k2 - k1,
{
    if k2 > k1 + 1 {
        lemma_sections_monotone(secs, k1, k2 - 1);
    }
}

/// Law: the sections of a well-formed view partition its positions
/// exactly — every position lies in exactly one section, none is omitted
/// and none is counted twice.
pub proof fn lemma_sections_partition(secs: Seq<Section>, n: int)
    requires
        sections_cover(n, secs),
    ensures
        forall|i: int| 0 <= i < n ==> #[trigger] covered_position(secs, i),
        forall|i: int, k1: int, k2: int|
            in_section(secs, k1, i) && in_section(secs, k2, i) ==> k1 == k2,
{
    assert forall|i: int| 0 <= i < n implies #[trigger] covered_position(secs, i) by {
        let k = lemma_find_section(secs, n, i);
        assert(in_section(secs, k, i));
    }
    assert forall|i: int, k1: int, k2: int|
        in_section(secs, k1, i) && in_section(secs, k2, i) implies k1 == k2 by {
        if k1 < k2 {
            lemma_sections_monotone(secs, k1, k2);
        } else if k2 < k1 {
            lemma_sections_monotone(secs, k2, k1);
        }
    }
}

/// Find the section containing position `i` of a covered range.
proof fn lemma_find_section(secs: Seq<Section>, n: int, i: int) -> (k: int)
    requires
        sections_cover(n, secs),
        0 <= i < n,
    ensures
        in_section(secs, k, i),
    decreases secs.len(),
{
    let last = secs.len() - 1;
    if i >= secs[last].start {
        last
    } else {
        let n2 = secs[last].start as int;
        let secs2 = secs.drop_last();
        assert(secs.len() > 1);
        assert(sections_cover(n2, secs2)) by {
            assert(secs2.len() == secs.len() - 1);
            assert forall|k: int| 0 <= k < secs2.len() implies (#[trigger] secs2[k]).len
                > 0 by {
                assert(secs2[k] == secs[k]);
            }
            assert forall|k: int| 0 < k < secs2.len() implies (#[trigger] secs2[k]).start
                == secs2[k - 1].start + secs2[k - 1].len by {
                assert(secs2[k] == secs[k]);
                assert(secs2[k - 1] == secs[k - 1]);
            }
            assert(secs2[0] == secs[0]);
            assert(secs2[secs2.len() - 1] == secs[secs.len() - 2]);
            assert(secs[last].start == secs[last - 1].start + secs[last - 1].len);
        }
        let k = lemma_find_section(secs2, n2, i);
        assert(secs2[k] == secs[k]);
        k
    }
}

/// Law: mapping a valid flat position of a well-formed view to its
/// (section, row) pair and back is the identity; the row is in range and
/// the section containing the position is unique.
pub proof fn lemma_section_row_round_trip(secs: Seq<Section>, n: int, i: int, k: int)
    requires
        sections_cover(n, secs),
        0 <= i < n,
        in_section(secs, k, i),
    ensures
        0 <= i - secs[k].start < secs[k].len,
        secs[k].start + (i - secs[k].start) == i,
        forall|k2: int| in_section(secs, k2, i) ==> k2 == k,
{
    lemma_sections_partition(secs, n);
}

/// The cursor after `k` single forward steps from the first position in
/// a view of `n` positions.
pub open spec fn next_steps(k: nat, n: int) -> int
    decreases k,
{
    if k == 0 {
        0
    } else {
        wrap_step(next_steps((k - 1) as nat, n), 1, n)
    }
}

/// One forward step from a valid position either advances or wraps to
/// the front.
proof fn lemma_wrap_one(c: int, n: int)
    requires
        n > 0,
        0 <= c < n,
    ensures
        wrap_step(c, 1, n) == (if c + 1 < n {
            c + 1
        } else {
            0
        }),
{
    if c + 1 < n {
        vstd::arithmetic::div_mod::lemma_small_mod((c + 1) as nat, n as nat);
        vstd::arithmetic::div_mod::lemma_mod_add_multiples_vanish(c + 1, n);
    } else {
        vstd::arithmetic::div_mod::lemma_mod_self_0(n);
        vstd::arithmetic::div_mod::lemma_mod_add_multiples_vanish(0, n);
        vstd::arithmetic::div_mod::lemma_small_mod(0nat, n as nat);
    }
}

/// `k` forward steps from the front land on `k`, until the count wraps
/// the cursor back to the front.
proof fn lemma_next_steps(k: nat, n: int)
    requires
        n > 0,
        k <= n,
    ensures
        next_steps(k, n) == (if k < n {
            k as int
        } else {
            0
        }),
    decreases k,
{
    if k > 0 {
        lemma_next_steps((k - 1) as nat, n);
        lemma_wrap_one(next_steps((k - 1) as nat, n), n);
    }
}

/// Law: the cursor wraps at both ends — on a view of `n` positions,
/// stepping forward `n` times from the first position returns to it, and
/// one backward step from the first position lands on the last.
pub proof fn lemma_move_selection_wraps(n: int)
    requires
        n > 0,
    ensures
        next_steps(n as nat, n) == 0,
        wrap_step(0, -1, n) == n - 1,
{
    lemma_next_steps(n as nat, n);
    vstd::arithmetic::div_mod::lemma_fundamental_div_mod_converse_mod(-1, n, -1, n - 1);
    vstd::arithmetic::div_mod::lemma_mod_add_multiples_vanish(n - 1, n);
    vstd::arithmetic::div_mod::lemma_small_mod((n - 1) as nat, n as nat);
}

/// Law: of two filter requests, only the later one's result is ever
/// applied. After the requests advanced the generation twice, the first
/// job's generation no longer matches; its late result leaves the state
/// exactly as the fresh result left it, and the final view and cursor
/// reflect the newer query only — whichever order the two background
/// computations finished in.
pub proof fn lemma_generation_guard(
    s0: ItemListDelegate,
    s1: ItemListDelegate,
    s2: ItemListDelegate,
    g1: u64,
    g2: u64,
    q1: Seq<char>,
    q2: Seq<char>,
    r1: Seq<usize>,
    r2: Seq<usize>,
    s3: ItemListDelegate,
    s4: ItemListDelegate,
)
    requires
        s0.generation < u64::MAX - 1,
        s1.generation == s0.generation + 1,  // after the first request
        g1 == s1.generation,
        s2.generation == s1.generation + 1,  // after the second request
        g2 == s2.generation,
        indices_ok(r2, s2.items@.len() as int),
        apply_outcome(s2, q2, g2, r2, s3),  // the newer result is applied
        apply_outcome(s3, q1, g1, r1, s4),  // the older result arrives late
    ensures
        s4 == s3,
        s3.filtered@ == r2,
        s3.query@ == q2,
        s3.selected == (if r2.len() > 0 {
            Some(0usize)
        } else {
            None::<usize>
        }),
{
}

} // verus!
