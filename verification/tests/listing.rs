use dualpane::panel_item::PanelItem;
use dualpane::pathops;
use dualpane::state::read_items;

fn names(items: &[PanelItem]) -> Vec<String> {
    items.iter().map(|it| it.display_string()).collect()
}

#[test]
fn scan_orders_directories_before_files() {
    let listing = vec![
        PanelItem::new(String::from("/a/zz"), false),
        PanelItem::new(String::from("/a/bb"), true),
        PanelItem::new(String::from("/a/aa"), false),
    ];
    let items = read_items(listing);
    assert_eq!(names(&items), vec!["..", "/a/bb", "/a/aa", "/a/zz"]);
    assert!(items[0].is_dir());
    assert!(items[1].is_dir());
    assert!(!items[2].is_dir());
    assert!(!items[3].is_dir());
}

#[test]
fn scan_of_empty_directory_keeps_only_parent() {
    let items = read_items(vec![]);
    assert_eq!(items.len(), 1);
    assert_eq!(items[0].display_string(), "..");
    assert!(items[0].is_dir());
    assert!(!*items[0].marked());
}

#[test]
fn scan_appends_parent_exactly_once() {
    let listing = vec![
        PanelItem::new(String::from("/x/one"), true),
        PanelItem::new(String::from("/x/two"), false),
    ];
    let items = read_items(listing);
    let parents = items
        .iter()
        .filter(|it| it.display_string() == "..")
        .count();
    assert_eq!(parents, 1);
    assert_eq!(items.len(), 3);
}

#[test]
fn scan_groups_are_each_in_display_order() {
    let listing = vec![
        PanelItem::new(String::from("/d/c"), true),
        PanelItem::new(String::from("/d/a"), true),
        PanelItem::new(String::from("/d/zz"), false),
        PanelItem::new(String::from("/d/mm"), false),
        PanelItem::new(String::from("/d/b"), true),
    ];
    let items = read_items(listing);
    assert_eq!(
        names(&items),
        vec!["..", "/d/a", "/d/b", "/d/c", "/d/mm", "/d/zz"]
    );
}

#[test]
fn equal_display_strings_split_by_directory_flag() {
    let listing = vec![
        PanelItem::new(String::from("/e/same"), false),
        PanelItem::new(String::from("/e/same"), true),
    ];
    let items = read_items(listing);
    assert_eq!(names(&items), vec!["..", "/e/same", "/e/same"]);
    assert!(items[1].is_dir());
    assert!(!items[2].is_dir());
}

#[test]
fn scanned_entries_are_unmarked() {
    let listing = vec![PanelItem::new(String::from("/a/f"), false)];
    let items = read_items(listing);
    assert!(items.iter().all(|it| !*it.marked()));
}

#[test]
fn file_name_takes_last_component() {
    assert_eq!(
        dualpane::filelist::file_name(&String::from("/tmp/a.txt")),
        "a.txt"
    );
    assert_eq!(dualpane::filelist::file_name(&String::from("a.txt")), "a.txt");
    assert_eq!(
        dualpane::filelist::file_name(&String::from("foo/bar/")),
        "bar"
    );
    assert_eq!(dualpane::filelist::file_name(&String::from("foo/.")), "foo");
}

#[test]
fn file_name_of_parent_or_bare_paths_is_parent() {
    assert_eq!(dualpane::filelist::file_name(&String::from("..")), "..");
    assert_eq!(dualpane::filelist::file_name(&String::from("a/..")), "..");
    assert_eq!(dualpane::filelist::file_name(&String::from("/")), "..");
    assert_eq!(dualpane::filelist::file_name(&String::from("")), "..");
}

#[test]
fn normalize_resolves_dot_and_parent_components() {
    assert_eq!(pathops::normalize("/a/b/../c"), "/a/c");
    assert_eq!(pathops::normalize("/a/./b//c"), "/a/b/c");
    assert_eq!(pathops::normalize("/a/.."), "/");
    assert_eq!(pathops::normalize("/.."), "/");
    assert_eq!(pathops::normalize("a/b/.."), "a");
}

#[test]
fn join_push_attaches_or_replaces() {
    assert_eq!(pathops::join_push("/a", "subdir"), "/a/subdir");
    assert_eq!(pathops::join_push("/a", "/abs"), "/abs");
    assert_eq!(pathops::join_push("", "rel"), "rel");
}

#[test]
fn split_slash_keeps_empty_components() {
    let comps = pathops::split_slash("/a//b/");
    assert_eq!(comps, vec!["", "a", "", "b", ""]);
    assert_eq!(pathops::split_slash(""), vec![""]);
}

#[test]
fn panel_item_accessors_report_fields() {
    let it = PanelItem::new(String::from("/p/q"), true);
    assert!(it.is_dir());
    assert_eq!(it.display_string(), "/p/q");
    assert_eq!(it.file_full_path(), "/p/q");
    assert_eq!(it.current_file_name(), "q");
    assert_eq!(it.path().as_str(), "/p/q");
    assert!(!*it.marked());
    assert_eq!(it.file_name("/x/y/z.rs"), "z.rs");
}

#[test]
fn normalize_keeps_leading_parent_components_of_relative_paths() {
    assert_eq!(pathops::normalize("../x"), "../x");
    assert_eq!(pathops::normalize("../../x/y"), "../../x/y");
    assert_eq!(pathops::normalize("./x"), "x");
}
