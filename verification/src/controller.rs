//! The control state machine: which keys mean what in which mode, and what
//! the surrounding loop must do next.

use vstd::prelude::*;

use crate::entry::EntryV;
use crate::fspath::FsPath;
use crate::paneset::{PaneSet, add_pane_rel, nav_left_rel, nav_right_rel, remove_pane_rel,
    select_rel, toggle_rel};
use crate::transfer::{TransferError, transfer_destination};

verus! {

/// Which keys are meaningful right now; while a transfer awaits its target
/// pane, the marked source path is carried here and nowhere else.
pub enum Mode {
    /// Ordinary browsing.
    Browsing,
    /// A source is marked for moving; confirming moves it into the active
    /// pane's directory.
    AwaitingMoveTarget(FsPath),
    /// A source is marked for copying; confirming copies it into the active
    /// pane's directory.
    AwaitingCopyTarget(FsPath),
}

/// A key press, as the event source hands it over.
pub enum Key {
    Up,
    Down,
    Left,
    Right,
    Enter,
    Escape,
    AddPane,
    RemovePane,
    ToggleReversal,
    MarkMove,
    MarkCopy,
    Delete,
    Other,
}

/// What the caller must do next on the browser's behalf.  Every
/// file-system request names plain absolute paths; the caller reports what
/// came of it through `update_dir`, `refresh_pane` and `record_failure`.
pub enum Action {
    /// Nothing to do.
    Stay,
    /// Leave the control loop.
    Exit,
    /// Resolve the named child of the active pane's directory and list it
    /// into the active pane.
    EnterDir(String),
    /// List the active pane's own path into the freshly inserted pane.
    FillNewPane,
    /// Rename `source` to `dest`, then re-list every pane.
    DoMove { source: FsPath, dest: FsPath },
    /// Copy `source` — a file's bytes, or a directory tree — to `dest`,
    /// then re-list every pane.
    DoCopy { source: FsPath, dest: FsPath },
    /// Delete the named file, or directory tree, from disk.
    DoDelete(FsPath),
}

/// The whole browser state the control loop steps.
pub struct Explorer {
    pub set: PaneSet,
    pub mode: Mode,
    pub status: bool,
}

/// The active pane's selected entry.
pub open spec fn sel_entry(s: PaneSet) -> EntryV {
    s.active_pane().entries@[s.active_pane().selected as int]@
}

/// The absolute path of the active pane's selected entry.
pub open spec fn marked_path(s: PaneSet) -> Seq<Seq<char>> {
    s.active_pane().path@.push(sel_entry(s).name)
}

/// The selection index one step up, saturating at the first entry.
pub open spec fn prev_sel(s: PaneSet) -> int {
    if s.active_pane().selected == 0 {
        0int
    } else {
        s.active_pane().selected - 1
    }
}

/// The selection index one step down, saturating at the last entry.
pub open spec fn next_sel(s: PaneSet) -> int {
    if s.active_pane().selected + 1 < s.active_pane().entries@.len() {
        s.active_pane().selected + 1
    } else {
        s.active_pane().selected as int
    }
}

/// Keys that read the selected entry, and so need one to exist.
pub open spec fn needs_selection(pre: Explorer, key: Key, shift: bool) -> bool {
    pre.mode is Browsing && match key {
        Key::Enter => true,
        Key::MarkMove => true,
        Key::MarkCopy => true,
        Key::Delete => shift,
        _ => false,
    }
}

/// Nothing observable happened: panes and mode as before, no failure.
pub open spec fn held_still(pre: Explorer, post: Explorer) -> bool {
    &&& post.set == pre.set
    &&& post.mode == pre.mode
    &&& post.status == true
}

/// What one step does while browsing.
pub open spec fn browse_step(
    pre: Explorer,
    post: Explorer,
    key: Key,
    shift: bool,
    action: Action,
) -> bool {
    match key {
        Key::Escape => held_still(pre, post) && action == Action::Exit,
        Key::Up => {
            &&& select_rel(pre.set, post.set, prev_sel(pre.set))
            &&& post.mode == pre.mode
            &&& post.status == true
            &&& action == Action::Stay
        },
        Key::Down => {
            &&& select_rel(pre.set, post.set, next_sel(pre.set))
            &&& post.mode == pre.mode
            &&& post.status == true
            &&& action == Action::Stay
        },
        Key::Left => {
            &&& nav_left_rel(pre.set, post.set)
            &&& post.mode == pre.mode
            &&& post.status == true
            &&& action == Action::Stay
        },
        Key::Right => {
            &&& nav_right_rel(pre.set, post.set)
            &&& post.mode == pre.mode
            &&& post.status == true
            &&& action == Action::Stay
        },
        Key::Enter => {
            if sel_entry(pre.set).is_dir {
                &&& post.set == pre.set
                &&& post.mode == pre.mode
                &&& post.status == true
                &&& (action matches Action::EnterDir(n) && n@ == sel_entry(pre.set).name)
            } else {
                held_still(pre, post) && action == Action::Stay
            }
        },
        Key::AddPane => {
            &&& add_pane_rel(pre.set, post.set, pre.set.active as int)
            &&& post.mode == pre.mode
            &&& post.status == true
            &&& action == Action::FillNewPane
        },
        Key::RemovePane => {
            &&& remove_pane_rel(pre.set, post.set, pre.set.active as int)
            &&& post.mode == pre.mode
            &&& post.status == true
            &&& action == Action::Stay
        },
        Key::ToggleReversal => {
            &&& toggle_rel(pre.set, post.set)
            &&& post.mode == pre.mode
            &&& post.status == true
            &&& action == Action::Stay
        },
        Key::MarkMove => {
            &&& post.set == pre.set
            &&& post.status == true
            &&& (post.mode matches Mode::AwaitingMoveTarget(p) && p@ == marked_path(pre.set))
            &&& action == Action::Stay
        },
        Key::MarkCopy => {
            &&& post.set == pre.set
            &&& post.status == true
            &&& (post.mode matches Mode::AwaitingCopyTarget(p) && p@ == marked_path(pre.set))
            &&& action == Action::Stay
        },
        Key::Delete => {
            if shift {
                &&& held_still(pre, post)
                &&& (action matches Action::DoDelete(p) && p@ == marked_path(pre.set))
            } else {
                held_still(pre, post) && action == Action::Stay
            }
        },
        _ => held_still(pre, post) && action == Action::Stay,
    }
}

/// What one step does while a transfer awaits its target: pane navigation
/// goes on, confirming hands the transfer request out and returns to
/// browsing whatever its outcome, cancelling just returns to browsing, and
/// every other key is ignored.
pub open spec fn await_step(
    pre: Explorer,
    post: Explorer,
    key: Key,
    action: Action,
    src: FsPath,
    is_move: bool,
) -> bool {
    match key {
        Key::Left => {
            &&& nav_left_rel(pre.set, post.set)
            &&& post.mode == pre.mode
            &&& post.status == true
            &&& action == Action::Stay
        },
        Key::Right => {
            &&& nav_right_rel(pre.set, post.set)
            &&& post.mode == pre.mode
            &&& post.status == true
            &&& action == Action::Stay
        },
        Key::Enter => {
            &&& post.set == pre.set
            &&& post.mode is Browsing
            &&& if src@.len() == 0 {
                post.status == false && action == Action::Stay
            } else {
                &&& post.status == true
                &&& if is_move {
                    action matches Action::DoMove { source, dest } && source == src && dest@
                        == pre.set.active_pane().path@.push(src@.last())
                } else {
                    action matches Action::DoCopy { source, dest } && source == src && dest@
                        == pre.set.active_pane().path@.push(src@.last())
                }
            }
        },
        Key::Escape => {
            &&& post.set == pre.set
            &&& post.mode is Browsing
            &&& post.status == true
            &&& action == Action::Stay
        },
        _ => held_still(pre, post) && action == Action::Stay,
    }
}

/// The full transition relation of one key press.
pub open spec fn step_rel(
    pre: Explorer,
    post: Explorer,
    key: Key,
    shift: bool,
    action: Action,
) -> bool {
    match pre.mode {
        Mode::Browsing => browse_step(pre, post, key, shift, action),
        Mode::AwaitingMoveTarget(src) => await_step(pre, post, key, action, src, true),
        Mode::AwaitingCopyTarget(src) => await_step(pre, post, key, action, src, false),
    }
}

impl Explorer {
    /// The panes are well-formed; the mode needs nothing further.
    pub open spec fn wf(&self) -> bool {
        self.set.wf()
    }

    /// A fresh browser at the given canonical directory: two panes with
    /// nothing listed yet, the right one active, browsing, no failure.
    pub fn new(path: FsPath) -> (e: Explorer)
        ensures
            e.wf(),
            e.mode == Mode::Browsing,
            e.status == true,
            e.set.panes@.len() == 2,
            e.set.active == 1,
            e.set.reversed == false,
            forall|k: int|
                0 <= k < 2 ==> {
                    &&& (#[trigger] e.set.panes@[k]).path@ == path@
                    &&& e.set.panes@[k].entries@.len() == 0
                    &&& e.set.panes@[k].selected == 0
                },
    {
        Explorer { set: PaneSet::new(path), mode: Mode::Browsing, status: true }
    }

    /// Whether the active pane has an entry to act on.
    pub fn has_selection(&self) -> (b: bool)
        requires
            self.wf(),
        ensures
            b == (self.set.active_pane().entries@.len() > 0),
    {
        self.set.panes[self.set.active].entries.len() > 0
    }

    /// Note that the operation just attempted failed; the panes keep
    /// whatever they showed.
    pub fn record_failure(&mut self)
        ensures
            final(self).set == old(self).set,
            final(self).mode == old(self).mode,
            final(self).status == false,
    {
        self.status = false;
    }

    /// Apply one key press: dispatch on the current mode, mutate the panes,
    /// and say what the caller must do next.
    pub fn step(&mut self, key: Key, shift: bool) -> (action: Action)
        requires
            old(self).wf(),
            needs_selection(*old(self), key, shift) ==> old(
                self).set.active_pane().entries@.len() > 0,
        ensures
            final(self).wf(),
            step_rel(*old(self), *final(self), key, shift, action),
    {
        self.status = true;
        let mut cur = Mode::Browsing;
        core::mem::swap(&mut cur, &mut self.mode);
        match cur {
            Mode::Browsing => match key {
                Key::Escape => Action::Exit,
                Key::Up => {
                    self.set.select_previous();
                    Action::Stay
                },
                Key::Down => {
                    self.set.select_next();
                    Action::Stay
                },
                Key::Left => {
                    self.set.navigate_left();
                    Action::Stay
                },
                Key::Right => {
                    self.set.navigate_right();
                    Action::Stay
                },
                Key::Enter => {
                    let (is_dir, name) = self.set.selected_entry_parts();
                    if is_dir {
                        Action::EnterDir(name)
                    } else {
                        Action::Stay
                    }
                },
                Key::AddPane => {
                    let idx = self.set.active;
                    self.set.add_pane(idx);
                    Action::FillNewPane
                },
                Key::RemovePane => {
                    let idx = self.set.active;
                    self.set.remove_pane(idx);
                    Action::Stay
                },
                Key::ToggleReversal => {
                    self.set.toggle_reversal();
                    Action::Stay
                },
                Key::MarkMove => {
                    let p = self.set.selected_path();
                    self.mode = Mode::AwaitingMoveTarget(p);
                    Action::Stay
                },
                Key::MarkCopy => {
                    let p = self.set.selected_path();
                    self.mode = Mode::AwaitingCopyTarget(p);
                    Action::Stay
                },
                Key::Delete => {
                    if shift {
                        Action::DoDelete(self.set.selected_path())
                    } else {
                        Action::Stay
                    }
                },
                _ => Action::Stay,
            },
            Mode::AwaitingMoveTarget(src) => match key {
                Key::Left => {
                    self.set.navigate_left();
                    self.mode = Mode::AwaitingMoveTarget(src);
                    Action::Stay
                },
                Key::Right => {
                    self.set.navigate_right();
                    self.mode = Mode::AwaitingMoveTarget(src);
                    Action::Stay
                },
                Key::Enter => match transfer_destination(&self.set, &src) {
                    Ok(dest) => Action::DoMove { source: src, dest },
                    Err(TransferError::InvalidPath) => {
                        self.status = false;
                        Action::Stay
                    },
                },
                Key::Escape => Action::Stay,
                _ => {
                    self.mode = Mode::AwaitingMoveTarget(src);
                    Action::Stay
                },
            },
            Mode::AwaitingCopyTarget(src) => match key {
                Key::Left => {
                    self.set.navigate_left();
                    self.mode = Mode::AwaitingCopyTarget(src);
                    Action::Stay
                },
                Key::Right => {
                    self.set.navigate_right();
                    self.mode = Mode::AwaitingCopyTarget(src);
                    Action::Stay
                },
                Key::Enter => match transfer_destination(&self.set, &src) {
                    Ok(dest) => Action::DoCopy { source: src, dest },
                    Err(TransferError::InvalidPath) => {
                        self.status = false;
                        Action::Stay
                    },
                },
                Key::Escape => Action::Stay,
                _ => {
                    self.mode = Mode::AwaitingCopyTarget(src);
                    Action::Stay
                },
            },
        }
    }
}

} // verus!
