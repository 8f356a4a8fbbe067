use funnyexplorerrust::entry::Entry;
use funnyexplorerrust::listing::build_listing;

fn e(name: &str, is_dir: bool) -> Entry {
    Entry::new(name.to_string(), is_dir)
}

fn names(entries: &Vec<Entry>) -> Vec<String> {
    let mut out = Vec::new();
    for entry in entries {
        out.push(entry.name.clone());
    }
    out
}

#[test]
fn listing_sorts_children_with_parent_entry() {
    let children = vec![e("b.txt", false), e("a.txt", false), e("z", true)];
    let listing = build_listing(children, false);
    assert_eq!(names(&listing), vec!["..", "a.txt", "b.txt", "z"]);
    assert!(listing[0].is_dir);
    assert!(!listing[1].is_dir);
    assert!(!listing[2].is_dir);
    assert!(listing[3].is_dir);
}

#[test]
fn listing_of_empty_directory_is_only_the_parent_entry() {
    let listing = build_listing(Vec::new(), false);
    assert_eq!(names(&listing), vec![".."]);
    assert!(listing[0].is_dir);
}

#[test]
fn reversed_listing_keeps_the_first_sorted_entry_in_place() {
    let children = vec![e("b.txt", false), e("a.txt", false), e("z", true)];
    let listing = build_listing(children, true);
    assert_eq!(names(&listing), vec!["..", "z", "b.txt", "a.txt"]);
}

#[test]
fn reversal_pins_whichever_entry_sorts_first_not_the_parent_entry() {
    // '!' orders before '.', so the parent entry is not first here, and the
    // reversal keeps "!a" in place while ".." moves.
    let children = vec![e("!b", false), e("!a", false)];
    let plain = build_listing(vec![e("!b", false), e("!a", false)], false);
    assert_eq!(names(&plain), vec!["!a", "!b", ".."]);
    let reversed = build_listing(children, true);
    assert_eq!(names(&reversed), vec!["!a", "..", "!b"]);
}

#[test]
fn names_order_by_scalar_value_so_multibyte_names_sort_after_ascii() {
    // U+00E9 encodes above every ASCII byte, so it sorts last.
    let children = vec![e("\u{e9}clair", false), e("zebra", false)];
    let listing = build_listing(children, false);
    assert_eq!(names(&listing), vec!["..", "zebra", "\u{e9}clair"]);
}

#[test]
fn parent_entry_is_sorted_by_name_not_pinned_first() {
    let listing = build_listing(vec![e("!only", true)], false);
    assert_eq!(names(&listing), vec!["!only", ".."]);
}
