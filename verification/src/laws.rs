//! Laws that relate several operations to one another.

use vstd::prelude::*;

use crate::listing::{distinct_names, lemma_listing_unique, listing_form, same_entries, views_of};
use crate::paneset::{PaneSet, add_pane_rel, remove_pane_rel, toggle_rel};

verus! {

/// Toggling reversal twice returns every pane to the exact listing it
/// showed before, and the flag to its old value.  (The names in one pane's
/// listing are distinct — a directory cannot repeat a name — which is what
/// makes the re-sort deterministic.)
pub proof fn lemma_toggle_round_trip(s0: PaneSet, s1: PaneSet, s2: PaneSet)
    requires
        s0.wf(),
        toggle_rel(s0, s1),
        toggle_rel(s1, s2),
    ensures
        s2.reversed == s0.reversed,
        s2.active == s0.active,
        s2.panes@.len() == s0.panes@.len(),
        forall|k: int|
            0 <= k < s0.panes@.len() ==> {
                &&& (#[trigger] s2.panes@[k]).path == s0.panes@[k].path
                &&& s2.panes@[k].selected == s0.panes@[k].selected
                &&& views_of(s2.panes@[k].entries@) == views_of(s0.panes@[k].entries@)
            },
{
    assert forall|k: int|
        0 <= k < s0.panes@.len() implies {
        &&& (#[trigger] s2.panes@[k]).path == s0.panes@[k].path
        &&& s2.panes@[k].selected == s0.panes@[k].selected
        &&& views_of(s2.panes@[k].entries@) == views_of(s0.panes@[k].entries@)
    } by {
        let e0 = views_of(s0.panes@[k].entries@);
        let e2 = views_of(s2.panes@[k].entries@);
        assert(s0.panes@[k].wf(s0.reversed));
        assert(listing_form(e0, s0.reversed));
        assert(distinct_names(e0));
        assert(same_entries(e2, e0));
        assert(listing_form(e2, s2.reversed));
        lemma_listing_unique(e0, e2, s0.reversed);
    }
}

/// Adding a pane at an index and removing it again at the same index
/// restores the panes exactly — the pane count among them.  The active
/// index lands one step before the insertion point; when the new pane was
/// inserted at the leftmost position, the active pane afterwards is the
/// pane that stood there before, so its path is unchanged too.
pub proof fn lemma_add_remove_round_trip(s0: PaneSet, s1: PaneSet, s2: PaneSet, i: int)
    requires
        s0.wf(),
        0 <= i <= s0.panes@.len(),
        add_pane_rel(s0, s1, i),
        remove_pane_rel(s1, s2, i),
    ensures
        s2.panes@ == s0.panes@,
        s2.panes@.len() == s0.panes@.len(),
        s2.reversed == s0.reversed,
        s2.active == if i == 0 {
            0int
        } else {
            i - 1
        },
        i == 0 ==> s2.active_pane() == s0.panes@[0],
        i > 0 ==> s2.active_pane() == s0.panes@[i - 1],
        i == s0.active && (i == 0 || s0.panes@[i - 1].path@ == s0.panes@[i].path@)
            ==> s2.active_pane().path@ == s0.panes@[s0.active as int].path@,
{
    assert(s1.panes@.len() >= 2);
    assert(s1.panes@.remove(i) =~= s0.panes@);
}

} // verus!
