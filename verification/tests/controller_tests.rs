use funnyexplorerrust::controller::{Action, Explorer, Key, Mode};
use funnyexplorerrust::entry::Entry;
use funnyexplorerrust::fspath::FsPath;

fn e(name: &str, is_dir: bool) -> Entry {
    Entry::new(name.to_string(), is_dir)
}

fn path(parts: &[&str]) -> FsPath {
    let mut owned = Vec::new();
    for p in parts {
        owned.push(p.to_string());
    }
    FsPath::from_parts(owned)
}

fn children() -> Vec<Entry> {
    vec![e("b.txt", false), e("a.txt", false), e("z", true)]
}

fn browser() -> Explorer {
    let mut ex = Explorer::new(path(&["home"]));
    ex.set.update_dir(path(&["home"]), children());
    ex.set.navigate_left();
    ex.set.update_dir(path(&["home"]), children());
    ex.set.navigate_right();
    ex
}

#[test]
fn escape_while_browsing_exits() {
    let mut ex = browser();
    let action = ex.step(Key::Escape, false);
    assert!(matches!(action, Action::Exit));
    assert!(matches!(ex.mode, Mode::Browsing));
}

#[test]
fn enter_on_a_directory_entry_asks_to_enter_it() {
    let mut ex = browser();
    // listing is ["..", "a.txt", "b.txt", "z"]; select "z"
    ex.step(Key::Down, false);
    ex.step(Key::Down, false);
    ex.step(Key::Down, false);
    let action = ex.step(Key::Enter, false);
    match action {
        Action::EnterDir(name) => assert_eq!(name, "z"),
        _ => panic!("expected a directory change"),
    }
}

#[test]
fn enter_on_a_file_entry_does_nothing() {
    let mut ex = browser();
    ex.step(Key::Down, false);
    let action = ex.step(Key::Enter, false);
    assert!(matches!(action, Action::Stay));
    assert!(ex.status);
}

#[test]
fn marking_then_cancelling_returns_to_browsing_without_work() {
    let mut ex = browser();
    ex.step(Key::Down, false);
    let action = ex.step(Key::MarkMove, false);
    assert!(matches!(action, Action::Stay));
    assert!(matches!(ex.mode, Mode::AwaitingMoveTarget(_)));
    let action = ex.step(Key::Escape, false);
    assert!(matches!(action, Action::Stay));
    assert!(matches!(ex.mode, Mode::Browsing));
    assert!(ex.status);
}

#[test]
fn confirming_a_marked_move_requests_it_into_the_active_pane() {
    let mut ex = browser();
    ex.step(Key::Down, false);
    ex.step(Key::MarkMove, false);
    ex.step(Key::Left, false);
    assert!(matches!(ex.mode, Mode::AwaitingMoveTarget(_)));
    let action = ex.step(Key::Enter, false);
    match action {
        Action::DoMove { source, dest } => {
            assert_eq!(source.parts, vec!["home", "a.txt"]);
            assert_eq!(dest.parts, vec!["home", "a.txt"]);
        },
        _ => panic!("expected a move request"),
    }
    assert!(matches!(ex.mode, Mode::Browsing));
    assert!(ex.status);
}

#[test]
fn confirming_a_marked_copy_requests_it_into_the_active_pane() {
    let mut ex = browser();
    ex.step(Key::Down, false);
    let action = ex.step(Key::MarkCopy, false);
    assert!(matches!(action, Action::Stay));
    let action = ex.step(Key::Enter, false);
    match action {
        Action::DoCopy { source, dest } => {
            assert_eq!(source.parts, vec!["home", "a.txt"]);
            assert_eq!(dest.parts, vec!["home", "a.txt"]);
        },
        _ => panic!("expected a copy request"),
    }
    assert!(matches!(ex.mode, Mode::Browsing));
}

#[test]
fn confirming_a_move_of_a_rootless_source_fails_and_returns_to_browsing() {
    let mut ex = browser();
    ex.mode = Mode::AwaitingMoveTarget(FsPath::root());
    let action = ex.step(Key::Enter, false);
    assert!(matches!(action, Action::Stay));
    assert!(matches!(ex.mode, Mode::Browsing));
    assert!(!ex.status);
}

#[test]
fn delete_needs_the_modifier_held() {
    let mut ex = browser();
    ex.step(Key::Down, false);
    let action = ex.step(Key::Delete, false);
    assert!(matches!(action, Action::Stay));
    let action = ex.step(Key::Delete, true);
    match action {
        Action::DoDelete(target) => assert_eq!(target.parts, vec!["home", "a.txt"]),
        _ => panic!("expected a delete request"),
    }
}

#[test]
fn unmatched_keys_are_ignored_in_an_awaiting_mode() {
    let mut ex = browser();
    ex.step(Key::MarkCopy, false);
    let action = ex.step(Key::Up, false);
    assert!(matches!(action, Action::Stay));
    assert!(matches!(ex.mode, Mode::AwaitingCopyTarget(_)));
    let action = ex.step(Key::ToggleReversal, false);
    assert!(matches!(action, Action::Stay));
    assert!(matches!(ex.mode, Mode::AwaitingCopyTarget(_)));
    assert!(!ex.set.reversed);
}

#[test]
fn add_pane_key_inserts_a_pane_and_asks_for_its_listing() {
    let mut ex = browser();
    let action = ex.step(Key::AddPane, false);
    assert!(matches!(action, Action::FillNewPane));
    assert_eq!(ex.set.panes.len(), 3);
    assert_eq!(ex.set.active, 1);
    assert!(ex.set.panes[1].entries.is_empty());
    ex.set.update_dir(path(&["home"]), vec![e("a.txt", false)]);
    assert_eq!(ex.set.panes[1].entries.len(), 2);
}

#[test]
fn failure_reporting_flips_only_the_status() {
    let mut ex = browser();
    let panes_before = ex.set.panes.len();
    ex.record_failure();
    assert!(!ex.status);
    assert_eq!(ex.set.panes.len(), panes_before);
    // the next key press clears it
    ex.step(Key::Other, false);
    assert!(ex.status);
}
