use funnyexplorerrust::entry::Entry;
use funnyexplorerrust::fspath::FsPath;
use funnyexplorerrust::paneset::PaneSet;
use funnyexplorerrust::transfer::{CopyPlanner, TransferError, transfer_destination};

fn e(name: &str, is_dir: bool) -> Entry {
    Entry::new(name.to_string(), is_dir)
}

fn path(parts: &[&str]) -> FsPath {
    let mut owned = Vec::new();
    for p in parts {
        owned.push(p.to_string());
    }
    FsPath::from_parts(owned)
}

#[test]
fn transfer_from_a_root_path_is_an_invalid_path() {
    let set = PaneSet::new(path(&["home"]));
    let r = transfer_destination(&set, &FsPath::root());
    assert!(matches!(r, Err(TransferError::InvalidPath)));
}

#[test]
fn transfer_destination_joins_the_active_panes_path_with_the_file_name() {
    let mut set = PaneSet::new(path(&["home"]));
    set.update_dir(path(&["home", "target"]), Vec::new());
    let dest = match transfer_destination(&set, &path(&["tmp", "notes.txt"])) {
        Ok(d) => d,
        Err(_) => panic!("a named source must be accepted"),
    };
    assert_eq!(dest.parts, vec!["home", "target", "notes.txt"]);
}

#[test]
fn copy_planner_walks_the_tree_and_plans_every_file_once() {
    // source tree under /src: f.txt, d/g.txt, d/h.txt, empty/
    let mut planner = CopyPlanner::new(path(&["src"]), path(&["dst"]));

    let mut dirs_visited: Vec<Vec<String>> = Vec::new();
    let mut dirs_created: Vec<Vec<String>> = Vec::new();
    let mut files_planned: Vec<(Vec<String>, Vec<String>)> = Vec::new();

    while let Some((working, dest)) = planner.next_dir() {
        dirs_visited.push(working.parts.clone());
        dirs_created.push(dest.parts.clone());
        let children = if working.parts == vec!["src"] {
            vec![e("f.txt", false), e("d", true), e("empty", true)]
        } else if working.parts == vec!["src", "d"] {
            vec![e("g.txt", false), e("h.txt", false)]
        } else {
            Vec::new()
        };
        let jobs = planner.note_children(&working, &dest, &children);
        for job in jobs {
            files_planned.push((job.0.parts.clone(), job.1.parts.clone()));
        }
    }

    assert_eq!(dirs_visited.len(), 3);
    assert_eq!(files_planned.len(), 3);
    assert_eq!(dirs_created[0], vec!["dst"]);
    assert!(dirs_created.contains(&vec!["dst".to_string(), "d".to_string()]));
    assert!(dirs_created.contains(&vec!["dst".to_string(), "empty".to_string()]));
    assert!(files_planned.contains(&(
        vec!["src".to_string(), "f.txt".to_string()],
        vec!["dst".to_string(), "f.txt".to_string()],
    )));
    assert!(files_planned.contains(&(
        vec!["src".to_string(), "d".to_string(), "g.txt".to_string()],
        vec!["dst".to_string(), "d".to_string(), "g.txt".to_string()],
    )));
    assert!(files_planned.contains(&(
        vec!["src".to_string(), "d".to_string(), "h.txt".to_string()],
        vec!["dst".to_string(), "d".to_string(), "h.txt".to_string()],
    )));
}

#[test]
fn copy_planner_of_a_childless_root_creates_only_the_destination_root() {
    let mut planner = CopyPlanner::new(path(&["src"]), path(&["dst"]));
    let (working, dest) = planner.next_dir().unwrap();
    assert_eq!(working.parts, vec!["src"]);
    assert_eq!(dest.parts, vec!["dst"]);
    let jobs = planner.note_children(&working, &dest, &Vec::new());
    assert!(jobs.is_empty());
    assert!(planner.next_dir().is_none());
}
