//! The ordered collection of panes and the operations on it.

use vstd::prelude::*;

use crate::entry::Entry;
use crate::fspath::FsPath;
use crate::listing::{build_listing, distinct_names, lemma_same_entries_distinct, listing_form,
    parent_entry, parent_name, resort_entries, same_entries, views_of};
use crate::pane::Pane;

verus! {

/// The ordered panes, the index of the active one, and the process-wide
/// sort-reversal flag.
pub struct PaneSet {
    pub panes: Vec<Pane>,
    pub active: usize,
    pub reversed: bool,
}

/// What `add_pane` does: a pane holding the active pane's path, with nothing
/// listed yet, stands inserted at the index and is now active; every later
/// pane shifted one position right; nothing else changed.
pub open spec fn add_pane_rel(pre: PaneSet, post: PaneSet, i: int) -> bool {
    &&& post.panes@.len() == pre.panes@.len() + 1
    &&& post.panes@ == pre.panes@.insert(i, post.panes@[i])
    &&& post.panes@[i].path@ == pre.panes@[pre.active as int].path@
    &&& post.panes@[i].entries@ == Seq::<Entry>::empty()
    &&& post.panes@[i].selected == 0
    &&& post.active == i
    &&& post.reversed == pre.reversed
}

/// What `remove_pane` does: with one pane left nothing changes at all;
/// otherwise the pane at the index is gone and the active index has moved
/// one step toward the start, saturating at the first pane.
pub open spec fn remove_pane_rel(pre: PaneSet, post: PaneSet, i: int) -> bool {
    if pre.panes@.len() <= 1 {
        post == pre
    } else {
        &&& post.panes@ == pre.panes@.remove(i)
        &&& post.active == if pre.active == 0 {
            0int
        } else {
            pre.active - 1
        }
        &&& post.reversed == pre.reversed
    }
}

/// What `toggle_reversal` does: the flag is flipped, and every pane keeps
/// its path, selection and entries, the entries re-sorted in memory into
/// display order for the new flag.
pub open spec fn toggle_rel(pre: PaneSet, post: PaneSet) -> bool {
    &&& post.reversed == !pre.reversed
    &&& post.active == pre.active
    &&& post.panes@.len() == pre.panes@.len()
    &&& forall|k: int|
        0 <= k < pre.panes@.len() ==> {
            &&& (#[trigger] post.panes@[k]).path == pre.panes@[k].path
            &&& post.panes@[k].selected == pre.panes@[k].selected
            &&& listing_form(views_of(post.panes@[k].entries@), post.reversed)
            &&& same_entries(views_of(post.panes@[k].entries@), views_of(pre.panes@[k].entries@))
        }
}

/// What `navigate_left` does: the active index steps left, saturating at
/// the first pane; the panes themselves are untouched.
pub open spec fn nav_left_rel(pre: PaneSet, post: PaneSet) -> bool {
    &&& post.panes == pre.panes
    &&& post.reversed == pre.reversed
    &&& post.active == if pre.active == 0 {
        0int
    } else {
        pre.active - 1
    }
}

/// What `navigate_right` does: the active index steps right, saturating at
/// the last pane; the panes themselves are untouched.
pub open spec fn nav_right_rel(pre: PaneSet, post: PaneSet) -> bool {
    &&& post.panes == pre.panes
    &&& post.reversed == pre.reversed
    &&& post.active == if pre.active + 1 < pre.panes@.len() {
        pre.active + 1
    } else {
        pre.active as int
    }
}

/// What moving the selection does: only the active pane's selection is at
/// `sel` now; everything else is untouched.
pub open spec fn select_rel(pre: PaneSet, post: PaneSet, sel: int) -> bool {
    &&& post.active == pre.active
    &&& post.reversed == pre.reversed
    &&& post.panes@.len() == pre.panes@.len()
    &&& forall|k: int|
        0 <= k < pre.panes@.len() && k != pre.active ==> (#[trigger] post.panes@[k])
            == pre.panes@[k]
    &&& post.active_pane().path == pre.active_pane().path
    &&& post.active_pane().entries == pre.active_pane().entries
    &&& post.active_pane().selected == sel
}

/// What a successful listing does to the pane at index `i`: it shows the
/// given path and the children with `".."` appended in display order, the
/// selection reset to the first entry; every other pane untouched.
pub open spec fn listed_rel(
    pre: PaneSet,
    post: PaneSet,
    i: int,
    path: Seq<Seq<char>>,
    children: Seq<crate::entry::EntryV>,
) -> bool {
    &&& post.panes@.len() == pre.panes@.len()
    &&& forall|k: int| 0 <= k < pre.panes@.len() && k != i ==> (#[trigger] post.panes@[k]) == pre.panes@[k]
    &&& post.panes@[i].path@ == path
    &&& post.panes@[i].selected == 0
    &&& post.panes@[i].entries@.len() == children.len() + 1
    &&& listing_form(views_of(post.panes@[i].entries@), post.reversed)
    &&& same_entries(views_of(post.panes@[i].entries@), children.push(parent_entry()))
    &&& views_of(post.panes@[i].entries@).contains(parent_entry())
    &&& post.active == pre.active
    &&& post.reversed == pre.reversed
}

/// Children as a fresh directory read hands them over: no two share a name,
/// and none is named `".."`.
pub open spec fn plausible_children(children: Seq<crate::entry::EntryV>) -> bool {
    &&& distinct_names(children)
    &&& forall|i: int| 0 <= i < children.len() ==> (#[trigger] children[i]).name != parent_name()
}

impl PaneSet {
    /// All panes well-formed, the active index in range, at least one pane.
    pub open spec fn wf(&self) -> bool {
        &&& self.panes@.len() >= 1
        &&& (self.active as int) < self.panes@.len()
        &&& forall|k: int|
            0 <= k < self.panes@.len() ==> (#[trigger] self.panes@[k]).wf(self.reversed)
    }

    /// The pane navigation and transfers act on.
    pub open spec fn active_pane(&self) -> Pane {
        self.panes@[self.active as int]
    }

    /// A fresh set: two panes at the given path with nothing listed yet, the
    /// right one active, reversal off.
    pub fn new(path: FsPath) -> (s: PaneSet)
        ensures
            s.wf(),
            s.panes@.len() == 2,
            s.active == 1,
            s.reversed == false,
            forall|k: int|
                0 <= k < 2 ==> {
                    &&& (#[trigger] s.panes@[k]).path@ == path@
                    &&& s.panes@[k].entries@ == Seq::<Entry>::empty()
                    &&& s.panes@[k].selected == 0
                },
    {
        let second = path.duplicate();
        let mut panes: Vec<Pane> = Vec::new();
        panes.push(Pane::empty_at(path));
        panes.push(Pane::empty_at(second));
        PaneSet { panes, active: 1, reversed: false }
    }

    /// Make the pane one step to the left active; at the leftmost pane the
    /// call is a no-op (saturating, no wraparound).
    pub fn navigate_left(&mut self)
        requires
            old(self).wf(),
        ensures
            final(self).wf(),
            nav_left_rel(*old(self), *final(self)),
    {
        if self.active > 0 {
            self.active = self.active - 1;
        }
    }

    /// Make the pane one step to the right active; at the rightmost pane the
    /// call is a no-op (saturating, no wraparound).
    pub fn navigate_right(&mut self)
        requires
            old(self).wf(),
        ensures
            final(self).wf(),
            nav_right_rel(*old(self), *final(self)),
    {
        let len = self.panes.len();
        if self.active < len - 1 {
            self.active = self.active + 1;
        }
    }

    /// Move the active pane's selection one entry up, saturating at the
    /// first entry.
    pub fn select_previous(&mut self)
        requires
            old(self).wf(),
        ensures
            final(self).wf(),
            select_rel(*old(self), *final(self), if old(self).active_pane().selected == 0 {
                0int
            } else {
                old(self).active_pane().selected - 1
            }),
    {
        let ghost pre = *self;
        let idx = self.active;
        let mut pane = self.panes.remove(idx);
        pane.select_previous();
        self.panes.insert(idx, pane);
        proof {
            assert(self.panes@ =~= pre.panes@.update(idx as int, pane));
        }
    }

    /// Move the active pane's selection one entry down, saturating at the
    /// last entry.
    pub fn select_next(&mut self)
        requires
            old(self).wf(),
        ensures
            final(self).wf(),
            select_rel(*old(self), *final(self),
                if old(self).active_pane().selected + 1 < old(
                    self).active_pane().entries@.len() {
                    old(self).active_pane().selected + 1
                } else {
                    old(self).active_pane().selected as int
                }),
    {
        let ghost pre = *self;
        let idx = self.active;
        let mut pane = self.panes.remove(idx);
        pane.select_next();
        self.panes.insert(idx, pane);
        proof {
            assert(self.panes@ =~= pre.panes@.update(idx as int, pane));
        }
    }

    /// The selected entry of the active pane: whether it is a directory,
    /// and its name.
    pub fn selected_entry_parts(&self) -> (r: (bool, String))
        requires
            self.wf(),
            self.active_pane().entries@.len() > 0,
        ensures
            r.0 == self.active_pane().entries@[self.active_pane().selected as int]@.is_dir,
            r.1@ == self.active_pane().entries@[self.active_pane().selected as int]@.name,
    {
        let pane = &self.panes[self.active];
        let e = &pane.entries[pane.selected];
        (e.is_dir, e.name.clone())
    }

    /// The absolute path of the active pane's selected entry.
    pub fn selected_path(&self) -> (p: FsPath)
        requires
            self.wf(),
            self.active_pane().entries@.len() > 0,
        ensures
            p@ == self.active_pane().path@.push(
                self.active_pane().entries@[self.active_pane().selected as int]@.name),
    {
        let pane = &self.panes[self.active];
        pane.path.child(&pane.entries[pane.selected].name)
    }

    /// Install a successful directory listing into the active pane.
    pub fn update_dir(&mut self, path: FsPath, children: Vec<Entry>)
        requires
            old(self).wf(),
            plausible_children(views_of(children@)),
        ensures
            final(self).wf(),
            listed_rel(*old(self), *final(self), old(self).active as int, path@,
                views_of(children@)),
    {
        let idx = self.active;
        self.list_into(idx, Some(path), children);
    }

    /// Re-list the pane at an index in place: its path stays, its entries
    /// are replaced by the fresh listing, its selection resets.
    pub fn refresh_pane(&mut self, at_index: usize, children: Vec<Entry>)
        requires
            old(self).wf(),
            (at_index as int) < old(self).panes@.len(),
            plausible_children(views_of(children@)),
        ensures
            final(self).wf(),
            listed_rel(*old(self), *final(self), at_index as int,
                old(self).panes@[at_index as int].path@, views_of(children@)),
    {
        self.list_into(at_index, None, children);
    }

    /// Replace the listing of one pane, and its path where a new one came
    /// with the listing.
    fn list_into(&mut self, at_index: usize, path: Option<FsPath>, children: Vec<Entry>)
        requires
            old(self).wf(),
            (at_index as int) < old(self).panes@.len(),
            plausible_children(views_of(children@)),
        ensures
            final(self).wf(),
            listed_rel(*old(self), *final(self), at_index as int,
                match path {
                    Some(p) => p@,
                    None => old(self).panes@[at_index as int].path@,
                }, views_of(children@)),
    {
        let ghost pre = *self;
        let ghost vc = views_of(children@);
        let pane = self.panes.remove(at_index);
        let new_path = match path {
            Some(p) => p,
            None => pane.path,
        };
        let entries = build_listing(children, self.reversed);
        proof {
            broadcast use vstd::seq_lib::group_to_multiset_ensures;

            assert(distinct_names(vc.push(parent_entry())));
            lemma_same_entries_distinct(vc.push(parent_entry()), views_of(entries@));
            assert(vc.push(parent_entry())[vc.len() as int] == parent_entry());
            assert(vc.push(parent_entry()).contains(parent_entry()));
            assert(vc.push(parent_entry()).to_multiset().count(parent_entry()) > 0);
            assert(views_of(entries@).to_multiset().count(parent_entry()) > 0);
            assert(views_of(entries@).contains(parent_entry()));
        }
        let new_pane = Pane { path: new_path, entries, selected: 0 };
        self.panes.insert(at_index, new_pane);
        proof {
            assert(self.panes@ =~= pre.panes@.update(at_index as int, new_pane));
            assert forall|k: int|
                0 <= k < self.panes@.len() implies (#[trigger] self.panes@[k]).wf(
                self.reversed) by {
                if k != at_index {
                    assert(self.panes@[k] == pre.panes@[k]);
                }
            }
        }
    }

    /// Insert a new pane at the index, cloning the active pane's path; it
    /// becomes the active pane, with nothing listed into it yet.
    pub fn add_pane(&mut self, at_index: usize)
        requires
            old(self).wf(),
            (at_index as int) <= old(self).panes@.len(),
        ensures
            final(self).wf(),
            add_pane_rel(*old(self), *final(self), at_index as int),
    {
        let ghost pre = *self;
        let path = self.panes[self.active].path.duplicate();
        let new_pane = Pane::empty_at(path);
        self.panes.insert(at_index, new_pane);
        self.active = at_index;
        proof {
            assert forall|k: int|
                0 <= k < self.panes@.len() implies (#[trigger] self.panes@[k]).wf(
                self.reversed) by {
                pre.panes@.insert_ensures(at_index as int, new_pane);
                if k < at_index {
                    assert(self.panes@[k] == pre.panes@[k]);
                } else if k > at_index {
                    assert(self.panes@[k] == pre.panes@[k - 1]);
                }
            }
        }
    }

    /// Remove the pane at the index and step the active index toward the
    /// start; refused (a no-op) while only one pane remains.
    pub fn remove_pane(&mut self, at_index: usize)
        requires
            old(self).wf(),
            (at_index as int) < old(self).panes@.len(),
        ensures
            final(self).wf(),
            remove_pane_rel(*old(self), *final(self), at_index as int),
    {
        let ghost pre = *self;
        if self.panes.len() > 1 {
            self.panes.remove(at_index);
            if self.active > 0 {
                self.active = self.active - 1;
            }
            proof {
                assert forall|k: int|
                    0 <= k < self.panes@.len() implies (#[trigger] self.panes@[k]).wf(
                    self.reversed) by {
                    if k < at_index {
                        assert(self.panes@[k] == pre.panes@[k]);
                    } else {
                        assert(self.panes@[k] == pre.panes@[k + 1]);
                    }
                }
            }
        }
    }

    /// Flip the reversal flag and bring every pane's in-memory entries into
    /// display order for the new flag; nothing is re-read from disk.
    pub fn toggle_reversal(&mut self)
        requires
            old(self).wf(),
        ensures
            final(self).wf(),
            toggle_rel(*old(self), *final(self)),
    {
        let ghost pre = *self;
        self.reversed = !self.reversed;
        let mut k: usize = 0;
        while k < self.panes.len()
            invariant
                pre.wf(),
                k <= self.panes@.len(),
                self.panes@.len() == pre.panes@.len(),
                self.active == pre.active,
                self.reversed == !pre.reversed,
                forall|j: int|
                    k <= j < pre.panes@.len() ==> (#[trigger] self.panes@[j]) == pre.panes@[j],
                forall|j: int|
                    0 <= j < k ==> {
                        &&& (#[trigger] self.panes@[j]).path == pre.panes@[j].path
                        &&& self.panes@[j].selected == pre.panes@[j].selected
                        &&& self.panes@[j].wf(self.reversed)
                        &&& same_entries(views_of(self.panes@[j].entries@),
                            views_of(pre.panes@[j].entries@))
                    },
            decreases self.panes@.len() - k,
        {
            let ghost mid = self.panes@;
            let pane = self.panes.remove(k);
            proof {
                assert(pane == mid[k as int]);
                assert(pane == pre.panes@[k as int]);
                assert(pre.wf());
                assert((k as int) < pre.panes@.len());
                assert(pre.panes@[k as int].wf(pre.reversed));
                assert(distinct_names(views_of(pane.entries@)));
            }
            let entries = resort_entries(pane.entries, self.reversed);
            proof {
                lemma_same_entries_distinct(views_of(pane.entries@), views_of(entries@));
            }
            let new_pane = Pane { path: pane.path, entries, selected: pane.selected };
            self.panes.insert(k, new_pane);
            proof {
                assert(self.panes@ =~= mid.update(k as int, new_pane));
                assert(new_pane.path == pre.panes@[k as int].path);
                assert(new_pane.selected == pre.panes@[k as int].selected);
                assert(new_pane.wf(self.reversed));
                assert(same_entries(views_of(new_pane.entries@),
                    views_of(pre.panes@[k as int].entries@)));
            }
            k = k + 1;
        }
    }
}

} // verus!
