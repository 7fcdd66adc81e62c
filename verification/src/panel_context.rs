//! One pane as the context layer holds it: focus flag, current directory,
//! listed entries and selection index.

use vstd::prelude::*;
use crate::panel_item::ItemView;
use crate::panel_item_context::PanelItemContext;
use crate::pathops;
use crate::sorting::{le_of, sort_entries, views_of};
use crate::state::{advance_index, no_parent_entry, retreat_index, scanned_from};

verus! {

/// One pane of the file manager.  The selection index always points at a
/// listed entry, and the listing always holds at least the synthetic parent
/// entry.
#[derive(Debug, Clone)]
pub struct PanelContext {
    pub active: bool,
    path: String,
    items: Vec<PanelItemContext>,
    index: usize,
}

impl PanelContext {
    /// Whether this pane has the focus.
    pub closed spec fn spec_active(self) -> bool {
        self.active
    }

    /// The selection index.
    pub closed spec fn spec_index(self) -> usize {
        self.index
    }

    /// The current directory.
    pub closed spec fn spec_path(self) -> Seq<char> {
        self.path@
    }

    /// The listed entries.
    pub closed spec fn spec_items(self) -> Seq<ItemView> {
        self.items.deep_view()
    }

    /// The pane invariant: a non-empty listing and a selection inside it.
    pub open spec fn wf(self) -> bool {
        self.spec_items().len() > 0 && self.spec_index() < self.spec_items().len()
    }

    /// A fresh pane showing the scan of `path`, with the selection on the
    /// first entry.
    pub fn new(active: bool, path: String, listing: Vec<PanelItemContext>) -> (r: Self)
        requires
            no_parent_entry(listing.deep_view()),
        ensures
            r.wf(),
            r.spec_active() == active,
            r.spec_path() == path@,
            r.spec_index() == 0,
            scanned_from(r.spec_items(), listing.deep_view()),
    {
        let mut result = PanelContext { active, path, items: Vec::new(), index: 0 };
        result.read_files(listing);
        result
    }

    /// The selection index.
    pub fn index(&self) -> (r: usize)
        ensures
            r == self.spec_index(),
    {
        self.index
    }

    /// A copy of the listed entries.
    pub fn items(&self) -> (r: Vec<PanelItemContext>)
        ensures
            r.deep_view() == self.spec_items(),
    {
        let mut r: Vec<PanelItemContext> = Vec::new();
        let mut i: usize = 0;
        proof {
            assert(r.deep_view() =~= self.items.deep_view().take(0));
        }
        while i < self.items.len()
            invariant
                i <= self.items@.len(),
                r.deep_view() =~= self.items.deep_view().take(i as int),
            decreases self.items@.len() - i,
        {
            let ghost r_pre = r.deep_view();
            r.push(self.items[i].clone());
            proof {
                let dv = self.items.deep_view();
                let rd = r.deep_view();
                assert(r_pre.len() == i as int);
                assert(r@.len() == r_pre.len() + 1);
                assert(rd.len() == r@.len());
                assert forall|k: int| 0 <= k <= i implies rd[k] == dv[k] by {
                    assert(rd[k] == r@[k].deep_view());
                    if k < i {
                        assert(rd[k] == r_pre[k]);
                        assert(r_pre[k] == dv.take(i as int)[k]);
                    } else {
                        assert(r@[k]@ == self.items@[i as int]@);
                        assert(dv[k] == self.items@[k].deep_view());
                    }
                }
                assert(rd =~= dv.take(i + 1));
            }
            i = i + 1;
        }
        proof {
            assert(self.items.deep_view().take(self.items@.len() as int) =~= self.items.deep_view());
        }
        r
    }

    /// Whether the selected entry names a directory.
    pub fn current_item_is_dir(&self) -> (r: bool)
        requires
            self.wf(),
        ensures
            r == self.spec_items()[self.spec_index() as int].is_dir,
    {
        self.items[self.index].is_dir()
    }

    /// The full path of the selected entry.
    pub fn current_item_full_path(&self) -> (r: String)
        requires
            self.wf(),
        ensures
            r@ == self.spec_items()[self.spec_index() as int].path,
    {
        self.items[self.index].full_path()
    }

    /// Toggles the marked flag of the selected entry and changes nothing
    /// else.
    pub fn mark_current_item(&mut self)
        requires
            old(self).wf(),
        ensures
            final(self).wf(),
            final(self).spec_active() == old(self).spec_active(),
            final(self).spec_path() == old(self).spec_path(),
            final(self).spec_index() == old(self).spec_index(),
            final(self).spec_items() == old(self).spec_items().update(
                old(self).spec_index() as int,
                ({
                    let v = old(self).spec_items()[old(self).spec_index() as int];
                    ItemView { marked: !v.marked, ..v }
                }),
            ),
    {
        let i = self.index;
        let ghost pre = self.items.deep_view();
        let mut it = self.items.remove(i);
        it.mark();
        self.items.insert(i, it);
        proof {
            pre.remove_ensures(i as int);
            pre.remove(i as int).insert_ensures(i as int, final(self).spec_items()[i as int]);
            assert(final(self).spec_items() =~= pre.update(
                i as int,
                (ItemView { marked: !pre[i as int].marked, ..pre[i as int] }),
            ));
        }
    }

    /// Moves the selection up by `times` entries, wrapping through the
    /// remainder past the top; the selection stays inside the listing.
    pub fn sub_index(&mut self, times: usize)
        requires
            old(self).wf(),
        ensures
            final(self).wf(),
            final(self).spec_active() == old(self).spec_active(),
            final(self).spec_path() == old(self).spec_path(),
            final(self).spec_items() == old(self).spec_items(),
            final(self).spec_index() == retreat_index(
                old(self).spec_index() as int,
                times as int,
                old(self).spec_items().len() as int,
            ),
    {
        self.index = self.index.saturating_sub(times) % self.items.len();
    }

    /// Moves the selection down by `times` entries; past the end it snaps to
    /// the last entry.  The selection stays inside the listing.
    pub fn add_index(&mut self, times: usize)
        requires
            old(self).wf(),
        ensures
            final(self).wf(),
            final(self).spec_active() == old(self).spec_active(),
            final(self).spec_path() == old(self).spec_path(),
            final(self).spec_items() == old(self).spec_items(),
            final(self).spec_index() == advance_index(
                old(self).spec_index() as int,
                times as int,
                old(self).spec_items().len() as int,
            ),
    {
        let new_index = self.index.saturating_add(times) % self.items.len();
        if new_index > self.index {
            self.index = new_index;
        } else {
            self.index = self.items.len() - 1;
        }
    }

    /// The current directory as a string.
    pub fn path_string(&self) -> (r: String)
        ensures
            r@ == self.spec_path(),
    {
        self.path.clone()
    }

    /// The display name of the selected entry.
    pub fn current_filename(&self) -> (r: String)
        requires
            self.wf(),
        ensures
            r@ == pathops::file_name_spec(self.spec_items()[self.spec_index() as int].path),
    {
        crate::filelist::file_name(self.items[self.index].path())
    }

    /// Replaces the listing by the scan assembled from `listing`: the
    /// synthetic parent entry appended and everything sorted into listing
    /// order.  The selection returns to the top.
    pub fn read_files(&mut self, listing: Vec<PanelItemContext>)
        requires
            no_parent_entry(listing.deep_view()),
        ensures
            final(self).wf(),
            final(self).spec_active() == old(self).spec_active(),
            final(self).spec_path() == old(self).spec_path(),
            final(self).spec_index() == 0,
            scanned_from(final(self).spec_items(), listing.deep_view()),
    {
        let ghost orig = listing.deep_view();
        let mut items = listing;
        items.push(PanelItemContext::new(String::from_str(".."), true));
        proof {
            reveal_strlit("..");
            assert(".."@ =~= seq!['.', '.']);
            assert(items.deep_view() =~= orig.push(crate::panel_item::parent_item_view()));
            assert(views_of(items@) =~= items.deep_view());
        }
        sort_entries(&mut items);
        proof {
            assert(views_of(items@) =~= items.deep_view());
            broadcast use vstd::seq_lib::group_to_multiset_ensures;

            assert(items.deep_view().to_multiset() == orig.push(
                crate::panel_item::parent_item_view(),
            ).to_multiset());
            assert(items.deep_view().len() == orig.len() + 1);
            crate::state::lemma_parent_unique(items.deep_view(), orig);
            assert forall|a: int, b: int| 0 <= a < b < items.deep_view().len() implies #[trigger]
            crate::panel_item::view_le(items.deep_view()[a], items.deep_view()[b]) by {
                assert(le_of(items@[a], items@[b]));
            }
        }
        self.items = items;
        self.index = 0;
    }
}

} // verus!
