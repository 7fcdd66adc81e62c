use dualpane::panel_context::PanelContext;
use dualpane::panel_item_context::PanelItemContext;

fn listing(paths: &[(&str, bool)]) -> Vec<PanelItemContext> {
    paths
        .iter()
        .map(|(p, d)| PanelItemContext::new(String::from(*p), *d))
        .collect()
}

#[test]
fn fresh_pane_selects_the_first_entry() {
    let pane = PanelContext::new(
        true,
        String::from("/h"),
        listing(&[("/h/b", false), ("/h/a", true)]),
    );
    assert!(pane.active);
    assert_eq!(pane.index(), 0);
    assert_eq!(pane.path_string(), "/h");
    let items = pane.items();
    assert_eq!(items.len(), 3);
    assert_eq!(items[0].display_string(), "..");
    assert_eq!(items[1].display_string(), "/h/a");
    assert_eq!(items[2].display_string(), "/h/b");
}

#[test]
fn pane_navigation_snaps_and_wraps_like_the_store() {
    let mut pane = PanelContext::new(
        true,
        String::from("/h"),
        listing(&[("/h/1", false), ("/h/2", false), ("/h/3", false), ("/h/4", false)]),
    );
    pane.add_index(3);
    assert_eq!(pane.index(), 3);
    pane.add_index(1);
    assert_eq!(pane.index(), 4);
    pane.add_index(1);
    assert_eq!(pane.index(), 4);
    pane.sub_index(2);
    assert_eq!(pane.index(), 2);
    pane.sub_index(9);
    assert_eq!(pane.index(), 0);
}

#[test]
fn marking_toggles_only_the_selected_entry() {
    let mut pane = PanelContext::new(
        true,
        String::from("/h"),
        listing(&[("/h/a", false), ("/h/b", false)]),
    );
    pane.add_index(1);
    pane.mark_current_item();
    let items = pane.items();
    assert!(!*items[0].marked());
    assert!(*items[1].marked());
    assert!(!*items[2].marked());
    pane.mark_current_item();
    let items = pane.items();
    assert!(!*items[1].marked());
}

#[test]
fn selected_entry_reports_kind_path_and_name() {
    let mut pane = PanelContext::new(
        false,
        String::from("/h"),
        listing(&[("/h/dir", true), ("/h/file.rs", false)]),
    );
    pane.add_index(1);
    assert!(pane.current_item_is_dir());
    assert_eq!(pane.current_item_full_path(), "/h/dir");
    assert_eq!(pane.current_filename(), "dir");
    pane.add_index(1);
    assert!(!pane.current_item_is_dir());
    assert_eq!(pane.current_filename(), "file.rs");
}

#[test]
fn rescan_resets_the_selection() {
    let mut pane = PanelContext::new(
        true,
        String::from("/h"),
        listing(&[("/h/a", false), ("/h/b", false)]),
    );
    pane.add_index(2);
    assert_eq!(pane.index(), 2);
    pane.read_files(listing(&[("/h/c", true)]));
    assert_eq!(pane.index(), 0);
    let items = pane.items();
    assert_eq!(items.len(), 2);
    assert_eq!(items[1].display_string(), "/h/c");
}

#[test]
fn pane_entry_reports_and_toggles_its_fields() {
    let mut it = PanelItemContext::new(String::from("/h/x"), false);
    assert!(!it.is_dir());
    assert_eq!(it.display_string(), "/h/x");
    assert_eq!(it.full_path(), "/h/x");
    assert_eq!(it.path().as_str(), "/h/x");
    assert!(!*it.marked());
    it.mark();
    assert!(*it.marked());
    it.mark();
    assert!(!*it.marked());
}
