//! One entry of a panel as the context layer holds it.

use vstd::prelude::*;
use crate::panel_item::ItemView;
use crate::pathops;
use crate::sorting::ListEntry;

verus! {

/// One directory entry with its display path, directory flag and marked
/// flag.
#[derive(Debug)]
pub struct PanelItemContext {
    path: String,
    is_dir: bool,
    marked: bool,
}

impl View for PanelItemContext {
    type V = ItemView;

    closed spec fn view(&self) -> ItemView {
        ItemView { path: self.path@, is_dir: self.is_dir, marked: self.marked }
    }
}

impl DeepView for PanelItemContext {
    type V = ItemView;

    open spec fn deep_view(&self) -> ItemView {
        self.view()
    }
}

impl Clone for PanelItemContext {
    fn clone(&self) -> (r: Self)
        ensures
            r@ == self@,
    {
        PanelItemContext { path: self.path.clone(), is_dir: self.is_dir, marked: self.marked }
    }
}

impl ListEntry for PanelItemContext {
    open spec fn entry_is_dir(&self) -> bool {
        self@.is_dir
    }

    open spec fn entry_path(&self) -> Seq<char> {
        self@.path
    }

    fn le(&self, other: &Self) -> (r: bool) {
        if self.is_dir != other.is_dir {
            self.is_dir
        } else {
            pathops::str_le(self.path.as_str(), other.path.as_str())
        }
    }
}

impl PanelItemContext {
    /// Wraps one scanned entry; a fresh entry is never marked.
    pub fn new(path: String, is_dir: bool) -> (r: Self)
        ensures
            r@ == (ItemView { path: path@, is_dir, marked: false }),
    {
        PanelItemContext { path, is_dir, marked: false }
    }

    /// Whether the entry names a directory.
    pub fn is_dir(&self) -> (r: bool)
        ensures
            r == self@.is_dir,
    {
        self.is_dir
    }

    /// The string the entry is listed under: its full path.
    pub fn display_string(&self) -> (r: String)
        ensures
            r@ == self@.path,
    {
        self.path.clone()
    }

    /// The path of the entry, borrowed.
    pub fn path(&self) -> (r: &String)
        ensures
            r@ == self@.path,
    {
        &self.path
    }

    /// The full path of the entry.
    pub fn full_path(&self) -> (r: String)
        ensures
            r@ == self@.path,
    {
        self.path.clone()
    }

    /// Whether the entry is marked.
    pub fn marked(&self) -> (r: &bool)
        ensures
            *r == self@.marked,
    {
        &self.marked
    }

    /// Toggles the marked flag and changes nothing else.
    pub fn mark(&mut self)
        ensures
            final(self)@.path == old(self)@.path,
            final(self)@.is_dir == old(self)@.is_dir,
            final(self)@.marked == !old(self)@.marked,
    {
        self.marked = !self.marked;
    }
}

} // verus!
