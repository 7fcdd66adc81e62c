//! One entry of a panel listing.

use vstd::prelude::*;
use crate::pathops;
use crate::sorting::ListEntry;

verus! {

/// Ghost image of a panel entry: the display path, the directory flag and
/// the marked flag.
pub struct ItemView {
    pub path: Seq<char>,
    pub is_dir: bool,
    pub marked: bool,
}

/// The ghost image of the synthetic parent entry `..` that every scan
/// appends: a directory, unmarked.
pub open spec fn parent_item_view() -> ItemView {
    ItemView { path: seq!['.', '.'], is_dir: true, marked: false }
}

/// The listing order on entry images.
pub open spec fn view_le(a: ItemView, b: ItemView) -> bool {
    crate::sorting::entry_le(a.is_dir, a.path, b.is_dir, b.path)
}

/// Whether a sequence of entry images is in listing order: every directory
/// before every file, each group ordered by display string.
pub open spec fn views_sorted(s: Seq<ItemView>) -> bool {
    forall|a: int, b: int| 0 <= a < b < s.len() ==> #[trigger] view_le(s[a], s[b])
}

/// A listing in order shows every directory before every file, and inside
/// each of the two groups the display strings are non-decreasing.
pub proof fn lemma_listing_ordered(s: Seq<ItemView>)
    requires
        views_sorted(s),
    ensures
        forall|i: int, j: int|
            0 <= i < j < s.len() && !(#[trigger] s[i]).is_dir ==> !(#[trigger] s[j]).is_dir,
        forall|i: int, j: int|
            0 <= i < j < s.len() && (#[trigger] s[i]).is_dir == (#[trigger] s[j]).is_dir
                ==> crate::pathops::lex_le(s[i].path, s[j].path),
{
    assert forall|i: int, j: int|
        0 <= i < j < s.len() && !(#[trigger] s[i]).is_dir implies !(#[trigger] s[j]).is_dir by {
        assert(view_le(s[i], s[j]));
    }
    assert forall|i: int, j: int|
        0 <= i < j < s.len() && (#[trigger] s[i]).is_dir == (#[trigger] s[j]).is_dir
        implies crate::pathops::lex_le(s[i].path, s[j].path) by {
        assert(view_le(s[i], s[j]));
    }
}

/// One directory entry of a panel: its full display path, whether it names a
/// directory, and a marked flag for extended selection.
#[derive(Debug)]
pub struct PanelItem {
    path: String,
    is_dir: bool,
    marked: bool,
}

impl View for PanelItem {
    type V = ItemView;

    closed spec fn view(&self) -> ItemView {
        ItemView { path: self.path@, is_dir: self.is_dir, marked: self.marked }
    }
}

impl DeepView for PanelItem {
    type V = ItemView;

    open spec fn deep_view(&self) -> ItemView {
        self.view()
    }
}

impl Clone for PanelItem {
    fn clone(&self) -> (r: Self)
        ensures
            r@ == self@,
    {
        PanelItem { path: self.path.clone(), is_dir: self.is_dir, marked: self.marked }
    }
}

impl ListEntry for PanelItem {
    open spec fn entry_is_dir(&self) -> bool {
        self@.is_dir
    }

    open spec fn entry_path(&self) -> Seq<char> {
        self@.path
    }

    fn le(&self, other: &Self) -> (r: bool) {
        if self.is_dir != other.is_dir {
            self.is_dir
        } else {
            pathops::str_le(self.path.as_str(), other.path.as_str())
        }
    }
}

impl PanelItem {
    /// Wraps one scanned entry; a fresh entry is never marked.
    pub fn new(path: String, is_dir: bool) -> (r: Self)
        ensures
            r@ == (ItemView { path: path@, is_dir, marked: false }),
    {
        PanelItem { path, is_dir, marked: false }
    }

    /// The display name of the entry at `fb`: its last named path component,
    /// or `..` when the path has none.
    pub fn file_name(&self, fb: &str) -> (r: String)
        ensures
            r@ == pathops::file_name_spec(fb@),
    {
        pathops::path_file_name(fb)
    }

    /// Whether the entry names a directory.
    pub fn is_dir(&self) -> (r: bool)
        ensures
            r == self@.is_dir,
    {
        self.is_dir
    }

    /// The string the entry is listed under: its full path.
    pub fn display_string(&self) -> (r: String)
        ensures
            r@ == self@.path,
    {
        self.path.clone()
    }

    /// The full path of the entry.
    pub fn file_full_path(&self) -> (r: String)
        ensures
            r@ == self@.path,
    {
        self.path.clone()
    }

    /// The display name of this entry itself.
    pub fn current_file_name(&self) -> (r: String)
        ensures
            r@ == pathops::file_name_spec(self@.path),
    {
        pathops::path_file_name(self.path.as_str())
    }

    /// The path of the entry, borrowed.
    pub fn path(&self) -> (r: &String)
        ensures
            r@ == self@.path,
    {
        &self.path
    }

    /// Whether the entry is marked.
    pub fn marked(&self) -> (r: &bool)
        ensures
            *r == self@.marked,
    {
        &self.marked
    }
}

} // verus!
