//! One navigable directory view: a path, its listing, and a selection.

use vstd::prelude::*;

use crate::entry::Entry;
use crate::fspath::FsPath;
use crate::listing::{distinct_names, listing_form, views_of};

verus! {

/// One pane: a canonical directory path, the entries listed for it, and the
/// index of the selected entry.
pub struct Pane {
    pub path: FsPath,
    pub entries: Vec<Entry>,
    pub selected: usize,
}

impl Pane {
    /// The selection is the first entry while nothing is listed, and in
    /// range otherwise.
    pub open spec fn selection_ok(&self) -> bool {
        &&& (self.entries@.len() == 0 ==> self.selected == 0)
        &&& (self.entries@.len() > 0 ==> (self.selected as int) < self.entries@.len())
    }

    /// Well-formed for the current reversal flag: the selection is in range,
    /// the entries are in display order for the flag, and no two entries
    /// share a name.
    pub open spec fn wf(&self, reversed: bool) -> bool {
        &&& self.selection_ok()
        &&& listing_form(views_of(self.entries@), reversed)
        &&& distinct_names(views_of(self.entries@))
    }

    /// A pane at the given path with nothing listed yet.
    pub fn empty_at(path: FsPath) -> (p: Pane)
        ensures
            p.path == path,
            p.entries@ == Seq::<Entry>::empty(),
            p.selected == 0,
            forall|r: bool| p.wf(r),
    {
        let p = Pane { path, entries: Vec::new(), selected: 0 };
        proof {
            assert(views_of(p.entries@) =~= Seq::<crate::entry::EntryV>::empty());
        }
        p
    }

    /// Move the selection one entry up, saturating at the first entry.
    pub fn select_previous(&mut self)
        ensures
            final(self).path == old(self).path,
            final(self).entries == old(self).entries,
            final(self).selected == if old(self).selected == 0 {
                0int
            } else {
                old(self).selected - 1
            },
    {
        if self.selected > 0 {
            self.selected = self.selected - 1;
        }
    }

    /// Move the selection one entry down, saturating at the last entry.
    pub fn select_next(&mut self)
        requires
            old(self).selection_ok(),
        ensures
            final(self).path == old(self).path,
            final(self).entries == old(self).entries,
            final(self).selected == if old(self).selected + 1 < old(self).entries@.len() {
                old(self).selected + 1
            } else {
                old(self).selected as int
            },
    {
        let len = self.entries.len();
        if len > 0 && self.selected < len - 1 {
            self.selected = self.selected + 1;
        }
    }
}

} // verus!
