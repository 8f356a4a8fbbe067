use funnyexplorerrust::entry::Entry;
use funnyexplorerrust::fspath::FsPath;
use funnyexplorerrust::paneset::PaneSet;

fn e(name: &str, is_dir: bool) -> Entry {
    Entry::new(name.to_string(), is_dir)
}

fn path(parts: &[&str]) -> FsPath {
    let mut owned = Vec::new();
    for p in parts {
        owned.push(p.to_string());
    }
    FsPath::from_parts(owned)
}

fn names(set: &PaneSet, pane: usize) -> Vec<String> {
    let mut out = Vec::new();
    for entry in &set.panes[pane].entries {
        out.push(entry.name.clone());
    }
    out
}

fn children() -> Vec<Entry> {
    vec![e("b.txt", false), e("a.txt", false), e("z", true)]
}

#[test]
fn update_dir_resets_selection_and_lists_parent_entry() {
    let mut set = PaneSet::new(path(&["home"]));
    set.update_dir(path(&["home", "z"]), children());
    assert_eq!(set.panes[1].selected, 0);
    assert!(!set.panes[1].entries.is_empty());
    assert!(set.panes[1].entries.iter().any(|en| en.name == ".."));
    assert_eq!(set.panes[1].path.parts, vec!["home", "z"]);
    // the other pane is untouched
    assert!(set.panes[0].entries.is_empty());
}

#[test]
fn toggling_reversal_twice_restores_the_listing() {
    let mut set = PaneSet::new(path(&["home"]));
    set.update_dir(path(&["home"]), children());
    let before = names(&set, 1);
    set.toggle_reversal();
    assert_ne!(names(&set, 1), before);
    assert!(set.reversed);
    set.toggle_reversal();
    assert_eq!(names(&set, 1), before);
    assert!(!set.reversed);
}

#[test]
fn remove_pane_is_refused_on_the_last_pane() {
    let mut set = PaneSet::new(path(&["home"]));
    set.remove_pane(0);
    assert_eq!(set.panes.len(), 1);
    set.remove_pane(0);
    assert_eq!(set.panes.len(), 1);
    assert_eq!(set.panes[0].path.parts, vec!["home"]);
}

#[test]
fn navigation_saturates_at_both_ends() {
    let mut set = PaneSet::new(path(&["home"]));
    assert_eq!(set.active, 1);
    set.navigate_right();
    assert_eq!(set.active, 1);
    set.navigate_left();
    assert_eq!(set.active, 0);
    set.navigate_left();
    assert_eq!(set.active, 0);
    set.navigate_right();
    assert_eq!(set.active, 1);
}

#[test]
fn add_then_remove_pane_restores_count_and_path() {
    let mut set = PaneSet::new(path(&["home"]));
    set.navigate_left();
    assert_eq!(set.active, 0);
    let count_before = set.panes.len();
    let path_before = set.panes[set.active].path.parts.clone();
    set.add_pane(0);
    assert_eq!(set.panes.len(), count_before + 1);
    assert_eq!(set.active, 0);
    set.remove_pane(0);
    assert_eq!(set.panes.len(), count_before);
    assert_eq!(set.active, 0);
    assert_eq!(set.panes[set.active].path.parts, path_before);
}

#[test]
fn added_pane_takes_the_active_panes_path() {
    let mut set = PaneSet::new(path(&["home"]));
    set.update_dir(path(&["home", "z"]), children());
    set.add_pane(1);
    assert_eq!(set.active, 1);
    assert_eq!(set.panes[1].path.parts, vec!["home", "z"]);
    assert!(set.panes[1].entries.is_empty());
    assert_eq!(set.panes.len(), 3);
}

#[test]
fn removing_a_pane_steps_the_active_index_back() {
    let mut set = PaneSet::new(path(&["home"]));
    set.add_pane(1);
    assert_eq!(set.panes.len(), 3);
    assert_eq!(set.active, 1);
    set.remove_pane(1);
    assert_eq!(set.panes.len(), 2);
    assert_eq!(set.active, 0);
}

#[test]
fn selection_moves_saturate_within_the_listing() {
    let mut set = PaneSet::new(path(&["home"]));
    set.update_dir(path(&["home"]), children());
    assert_eq!(set.panes[1].selected, 0);
    set.select_previous();
    assert_eq!(set.panes[1].selected, 0);
    set.select_next();
    set.select_next();
    set.select_next();
    assert_eq!(set.panes[1].selected, 3);
    set.select_next();
    assert_eq!(set.panes[1].selected, 3);
    set.select_previous();
    assert_eq!(set.panes[1].selected, 2);
}

#[test]
fn refresh_pane_keeps_the_panes_path() {
    let mut set = PaneSet::new(path(&["home"]));
    set.update_dir(path(&["home", "z"]), children());
    set.refresh_pane(1, vec![e("fresh.txt", false)]);
    assert_eq!(set.panes[1].path.parts, vec!["home", "z"]);
    assert_eq!(names(&set, 1), vec!["..", "fresh.txt"]);
    assert_eq!(set.panes[1].selected, 0);
}
