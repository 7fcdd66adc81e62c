//! The application snapshot: two panels, the editor flags, and the popup
//! sub-state.

use vstd::prelude::*;
use crate::action::Action;
use crate::panel_item::{ItemView, PanelItem, parent_item_view, view_le, views_sorted};
use crate::sorting::{le_of, sort_entries, views_of};
use crate::state_store::{PanelPosition, PopupType};

verus! {

/// One pane of the file manager: whether it has the focus, its directory,
/// the selection index and the listed entries.
#[derive(Debug, Clone)]
pub struct PanelData {
    pub active: bool,
    pub path: String,
    pub index: usize,
    pub items: Vec<PanelItem>,
}

/// The full application snapshot.
#[derive(Debug, Clone)]
pub struct State {
    pub l_panel: PanelData,
    pub r_panel: PanelData,
    /// The file open in the editor; `None` while the editor page is closed.
    pub editor_file: Option<String>,
    pub editor_modified: bool,
    /// The popup is showing exactly while this message is non-empty.
    pub popup_msg: String,
    pub popup_type: PopupType,
    /// The action to run when the popup is confirmed.
    pub popup_next_action: Option<Action>,
    /// The live text of the input popup.
    pub popup_input: String,
}

/// The panels of two snapshots agree.
pub open spec fn panels_eq(a: State, b: State) -> bool {
    a.l_panel == b.l_panel && a.r_panel == b.r_panel
}

/// The active panel's path was replaced by `target` and its selection reset
/// to the top, while its listing is still the old one (a rescan completes
/// the step); everything else is untouched.
pub open spec fn entered_pending(pre: State, post: State, target: Seq<char>) -> bool {
    &&& if pre.l_panel.active {
        &&& post.l_panel.active == pre.l_panel.active
        &&& post.l_panel.path@ == target
        &&& post.l_panel.index == 0
        &&& post.l_panel.items == pre.l_panel.items
        &&& post.r_panel == pre.r_panel
    } else {
        &&& post.r_panel.active == pre.r_panel.active
        &&& post.r_panel.path@ == target
        &&& post.r_panel.index == 0
        &&& post.r_panel.items == pre.r_panel.items
        &&& post.l_panel == pre.l_panel
    }
    &&& editor_eq(post, pre)
    &&& popup_eq(post, pre)
}

/// The editor sub-state of two snapshots agrees.
pub open spec fn editor_eq(a: State, b: State) -> bool {
    &&& a.editor_file.deep_view() == b.editor_file.deep_view()
    &&& a.editor_modified == b.editor_modified
}

/// The popup sub-state of two snapshots agrees.
pub open spec fn popup_eq(a: State, b: State) -> bool {
    &&& a.popup_msg@ == b.popup_msg@
    &&& a.popup_type == b.popup_type
    &&& a.popup_next_action == b.popup_next_action
    &&& a.popup_input@ == b.popup_input@
}

/// A listing assembled by a scan from the raw entries `listing`: the same
/// entries plus the synthetic parent entry, in listing order, the parent
/// entry present exactly once.
pub open spec fn scanned_from(items: Seq<ItemView>, listing: Seq<ItemView>) -> bool {
    &&& views_sorted(items)
    &&& items.to_multiset() == listing.push(parent_item_view()).to_multiset()
    &&& items.len() == listing.len() + 1
    &&& exists|i: int| 0 <= i < items.len() && #[trigger] items[i] == parent_item_view()
    &&& forall|i: int, j: int|
        0 <= i < items.len() && 0 <= j < items.len() && (#[trigger] items[i]).path == seq![
            '.',
            '.',
        ] && (#[trigger] items[j]).path == seq!['.', '.'] ==> i == j
}

/// No raw entry may itself be named `..`: the parent entry is synthetic.
pub open spec fn no_parent_entry(listing: Seq<ItemView>) -> bool {
    forall|i: int| 0 <= i < listing.len() ==> (#[trigger] listing[i]).path != seq!['.', '.']
}

/// The selection index after retreating `times` steps from `index` in a
/// listing of `len` entries: saturating subtraction, then the remainder.
pub open spec fn retreat_index(index: int, times: int, len: int) -> int
    recommends
        len > 0,
{
    (if index >= times {
        index - times
    } else {
        0
    }) % len
}

/// The selection index after advancing `times` steps from `index` in a
/// listing of `len` entries: saturating addition, then the remainder — but
/// when that does not move the selection forward, the selection snaps to the
/// last entry instead of wrapping.
pub open spec fn advance_index(index: int, times: int, len: int) -> int
    recommends
        len > 0,
{
    let cand = (if index + times > usize::MAX {
        usize::MAX as int
    } else {
        index + times
    }) % len;
    if cand > index {
        cand
    } else {
        len - 1
    }
}

/// The selection of the active panel moved down by `times` steps, nothing
/// else: the relation of `State::add_index`.
pub open spec fn advanced(pre: State, post: State, times: int) -> bool {
    let ap = pre.spec_active_panel();
    let ni = advance_index(ap.index as int, times, ap.items@.len() as int);
    if pre.l_panel.active {
        post == (State { l_panel: panel_with_index(pre.l_panel, ni as usize), ..pre })
    } else {
        post == (State { r_panel: panel_with_index(pre.r_panel, ni as usize), ..pre })
    }
}

/// The selection of the active panel moved up by `times` steps, nothing
/// else: the relation of `State::sub_index`.
pub open spec fn retreated(pre: State, post: State, times: int) -> bool {
    let ap = pre.spec_active_panel();
    let ni = retreat_index(ap.index as int, times, ap.items@.len() as int);
    if pre.l_panel.active {
        post == (State { l_panel: panel_with_index(pre.l_panel, ni as usize), ..pre })
    } else {
        post == (State { r_panel: panel_with_index(pre.r_panel, ni as usize), ..pre })
    }
}

proof fn lemma_count_two<A>(s: Seq<A>, i: int, j: int)
    requires
        0 <= i < s.len(),
        0 <= j < s.len(),
        i != j,
        s[i] == s[j],
    ensures
        s.to_multiset().count(s[i]) >= 2,
{
    broadcast use vstd::seq_lib::group_to_multiset_ensures;
    broadcast use vstd::multiset::group_multiset_axioms;

    let t = s.remove(i);
    assert(t.to_multiset() =~= s.to_multiset().remove(s[i]));
    s.remove_ensures(i);
    if j < i {
        assert(t[j] == s[j]);
        assert(t.contains(s[i]));
    } else {
        assert(t[j - 1] == s[j]);
        assert(t.contains(s[i]));
    }
    assert(t.to_multiset().count(s[i]) > 0);
}

/// The parent entry stands in a scanned listing exactly once.
pub proof fn lemma_parent_unique(items: Seq<ItemView>, listing: Seq<ItemView>)
    requires
        no_parent_entry(listing),
        items.to_multiset() == listing.push(parent_item_view()).to_multiset(),
        items.len() == listing.len() + 1,
    ensures
        exists|i: int| 0 <= i < items.len() && #[trigger] items[i] == parent_item_view(),
        forall|i: int, j: int|
            0 <= i < items.len() && 0 <= j < items.len() && (#[trigger] items[i]).path == seq![
                '.',
                '.',
            ] && (#[trigger] items[j]).path == seq!['.', '.'] ==> i == j,
{
    broadcast use vstd::seq_lib::group_to_multiset_ensures;
    broadcast use vstd::multiset::group_multiset_axioms;

    let ext = listing.push(parent_item_view());
    assert(ext[listing.len() as int] == parent_item_view());
    assert(ext.contains(parent_item_view()));
    assert(items.to_multiset().count(parent_item_view()) > 0);
    assert(items.contains(parent_item_view()));
    assert forall|i: int, j: int|
        0 <= i < items.len() && 0 <= j < items.len() && (#[trigger] items[i]).path == seq![
            '.',
            '.',
        ] && (#[trigger] items[j]).path == seq!['.', '.'] implies i == j by {
        if i != j {
            assert(items.contains(items[i]));
            assert(ext.to_multiset().count(items[i]) > 0);
            assert(ext.contains(items[i]));
            let k = choose|k: int| 0 <= k < ext.len() && ext[k] == items[i];
            assert(items[i] == parent_item_view());
            assert(items.contains(items[j]));
            assert(ext.to_multiset().count(items[j]) > 0);
            assert(ext.contains(items[j]));
            let k2 = choose|k2: int| 0 <= k2 < ext.len() && ext[k2] == items[j];
            assert(items[j] == parent_item_view());
            lemma_count_two(items, i, j);
            assert(items.to_multiset().count(parent_item_view()) >= 2);
            let base = listing.to_multiset();
            assert(ext.to_multiset() =~= base.insert(parent_item_view()));
            assert(base.count(parent_item_view()) == 0) by {
                if base.count(parent_item_view()) > 0 {
                    assert(listing.contains(parent_item_view()));
                    let m = choose|m: int|
                        0 <= m < listing.len() && listing[m] == parent_item_view();
                    assert(listing[m].path == seq!['.', '.']);
                }
            }
            assert(ext.to_multiset().count(parent_item_view()) == 1);
        }
    }
}

/// Assembles one scan into a listing: wraps nothing, appends the synthetic
/// parent entry `..`, and sorts into listing order — directories first,
/// each group ordered by display string, entries with equal keys keeping
/// their relative order.
pub fn read_items(listing: Vec<PanelItem>) -> (r: Vec<PanelItem>)
    requires
        no_parent_entry(listing.deep_view()),
    ensures
        scanned_from(r.deep_view(), listing.deep_view()),
{
    let mut items = listing;
    let ghost orig = items.deep_view();
    items.push(PanelItem::new(String::from_str(".."), true));
    proof {
        reveal_strlit("..");
        assert(".."@ =~= seq!['.', '.']);
        assert(items.deep_view() =~= orig.push(parent_item_view()));
        assert(views_of(items@) =~= items.deep_view());
    }
    sort_entries(&mut items);
    proof {
        assert(views_of(items@) =~= items.deep_view());
        broadcast use vstd::seq_lib::group_to_multiset_ensures;

        assert(items.deep_view().to_multiset() == orig.push(parent_item_view()).to_multiset());
        assert(items.deep_view().len() == orig.len() + 1);
        lemma_parent_unique(items.deep_view(), orig);
        assert forall|a: int, b: int| 0 <= a < b < items.deep_view().len() implies #[trigger]
        view_le(items.deep_view()[a], items.deep_view()[b]) by {
            assert(le_of(items@[a], items@[b]));
        }
    }
    items
}

fn clone_items(v: &Vec<PanelItem>) -> (r: Vec<PanelItem>)
    ensures
        r.deep_view() == v.deep_view(),
{
    let mut r: Vec<PanelItem> = Vec::new();
    let mut i: usize = 0;
    proof {
        assert(r.deep_view() =~= v.deep_view().take(0));
    }
    while i < v.len()
        invariant
            i <= v@.len(),
            r.deep_view() =~= v.deep_view().take(i as int),
        decreases v@.len() - i,
    {
        let ghost r_pre = r.deep_view();
        r.push(v[i].clone());
        proof {
            let dv = v.deep_view();
            let rd = r.deep_view();
            assert(r_pre.len() == i as int);
            assert(r@.len() == r_pre.len() + 1);
            assert(rd.len() == r@.len());
            assert(rd.len() == i + 1);
            assert forall|k: int| 0 <= k <= i implies rd[k] == dv[k] by {
                assert(rd[k] == r@[k].deep_view());
                if k < i {
                    assert(r@[k] == r@.subrange(0, i as int)[k]);
                    assert(rd[k] == r_pre[k]);
                    assert(r_pre[k] == dv.take(i as int)[k]);
                } else {
                    assert(r@[k]@ == v@[i as int]@);
                    assert(dv[k] == v@[k].deep_view());
                }
            }
            assert(rd =~= dv.take(i + 1));
        }
        i = i + 1;
    }
    proof {
        assert(v.deep_view().take(v@.len() as int) =~= v.deep_view());
    }
    r
}

/// The panel value with only its selection index changed.
pub open spec fn panel_with_index(p: PanelData, index: usize) -> PanelData {
    PanelData { active: p.active, path: p.path, index, items: p.items }
}

/// A panel whose listing was replaced by a fresh scan; nothing else moved —
/// in particular the selection index is not clamped to the new listing.
pub open spec fn panel_replaced(post: PanelData, pre: PanelData, listing: Seq<ItemView>) -> bool {
    &&& post.active == pre.active
    &&& post.path@ == pre.path@
    &&& post.index == pre.index
    &&& scanned_from(post.items.deep_view(), listing)
}

/// A panel that entered the directory `target`: path replaced, selection
/// reset to the top, listing rescanned.
pub open spec fn panel_entered(
    post: PanelData,
    pre: PanelData,
    target: Seq<char>,
    listing: Seq<ItemView>,
) -> bool {
    &&& post.active == pre.active
    &&& post.path@ == target
    &&& post.index == 0
    &&& scanned_from(post.items.deep_view(), listing)
}

impl State {
    /// Exactly one panel has the focus.
    pub open spec fn one_active(self) -> bool {
        self.l_panel.active != self.r_panel.active
    }

    /// An error notice never carries a pending action: a pending action is
    /// set only together with an input or yes/no popup.
    pub open spec fn popup_wf(self) -> bool {
        self.popup_next_action is Some ==> self.popup_type != PopupType::Error
    }

    /// Every panel keeps at least its synthetic parent entry.
    pub open spec fn panels_nonempty(self) -> bool {
        self.l_panel.items@.len() > 0 && self.r_panel.items@.len() > 0
    }

    /// The snapshot invariant: one focused panel, a well-formed popup, and
    /// non-empty listings.
    pub open spec fn wf(self) -> bool {
        self.one_active() && self.popup_wf() && self.panels_nonempty()
    }

    /// The panel that has the focus.
    pub open spec fn spec_active_panel(self) -> PanelData {
        if self.l_panel.active {
            self.l_panel
        } else {
            self.r_panel
        }
    }

    /// A fresh snapshot: both panels list the scan of `path`, the left one
    /// has the focus, the editor is closed and the popup idle.
    pub fn new(path: String, listing: Vec<PanelItem>) -> (r: State)
        requires
            no_parent_entry(listing.deep_view()),
        ensures
            r.wf(),
            r.l_panel.active && !r.r_panel.active,
            r.l_panel.path@ == path@ && r.r_panel.path@ == path@,
            r.l_panel.index == 0 && r.r_panel.index == 0,
            scanned_from(r.l_panel.items.deep_view(), listing.deep_view()),
            r.r_panel.items.deep_view() == r.l_panel.items.deep_view(),
            r.editor_file is None,
            !r.editor_modified,
            r.popup_msg@.len() == 0,
            r.popup_type == PopupType::Error,
            r.popup_next_action is None,
            r.popup_input@.len() == 0,
    {
        let items = read_items(listing);
        let items_r = clone_items(&items);
        let path_r = path.clone();
        State {
            l_panel: PanelData { active: true, path, index: 0, items },
            r_panel: PanelData { active: false, path: path_r, index: 0, items: items_r },
            editor_file: None,
            editor_modified: false,
            popup_msg: String::new(),
            popup_type: PopupType::Error,
            popup_next_action: None,
            popup_input: String::new(),
        }
    }

    fn active_panel(&self) -> (r: &PanelData)
        ensures
            *r == self.spec_active_panel(),
    {
        if self.l_panel.active {
            return &self.l_panel;
        }
        &self.r_panel
    }

    fn set_active_panel_index(&mut self, index: usize)
        ensures
            old(self).l_panel.active ==> *final(self) == (State {
                l_panel: panel_with_index(old(self).l_panel, index),
                ..*old(self)
            }),
            !old(self).l_panel.active ==> *final(self) == (State {
                r_panel: panel_with_index(old(self).r_panel, index),
                ..*old(self)
            }),
    {
        if self.l_panel.active {
            self.l_panel.index = index;
        } else {
            self.r_panel.index = index;
        }
    }

    /// Rescans one panel from `listing`; the selection index is deliberately
    /// left alone, so it may point past the end of a shorter new listing.
    pub fn reload(&mut self, position: PanelPosition, listing: Vec<PanelItem>)
        requires
            no_parent_entry(listing.deep_view()),
        ensures
            position == PanelPosition::L ==> panel_replaced(
                final(self).l_panel,
                old(self).l_panel,
                listing.deep_view(),
            ) && final(self).r_panel == old(self).r_panel,
            position == PanelPosition::R ==> panel_replaced(
                final(self).r_panel,
                old(self).r_panel,
                listing.deep_view(),
            ) && final(self).l_panel == old(self).l_panel,
            editor_eq(*final(self), *old(self)),
            popup_eq(*final(self), *old(self)),
            old(self).wf() ==> final(self).wf(),
    {
        match position {
            PanelPosition::L => {
                self.l_panel.items = read_items(listing);
            },
            PanelPosition::R => {
                self.r_panel.items = read_items(listing);
            },
        }
    }

    /// The directory the active panel would enter: `dir` pushed onto its
    /// path and normalized.
    pub fn cd_target(&self, dir: &str) -> (r: String)
        ensures
            r@ == crate::pathops::normalize_spec(
                crate::pathops::join_path(self.spec_active_panel().path@, dir@),
            ),
    {
        if self.l_panel.active {
            crate::pathops::normalize(
                crate::pathops::join_push(self.l_panel.path.as_str(), dir).as_str(),
            )
        } else {
            crate::pathops::normalize(
                crate::pathops::join_push(self.r_panel.path.as_str(), dir).as_str(),
            )
        }
    }

    /// Enters `dir` from the active panel: the panel's path becomes the
    /// normalized join, its selection returns to the top, and its listing is
    /// replaced by the scan of the new directory.
    pub fn cd(&mut self, dir: String, listing: Vec<PanelItem>)
        requires
            no_parent_entry(listing.deep_view()),
        ensures
            ({
                let target = crate::pathops::normalize_spec(
                    crate::pathops::join_path(old(self).spec_active_panel().path@, dir@),
                );
                if old(self).l_panel.active {
                    panel_entered(final(self).l_panel, old(self).l_panel, target, listing.deep_view())
                        && final(self).r_panel == old(self).r_panel
                } else {
                    panel_entered(final(self).r_panel, old(self).r_panel, target, listing.deep_view())
                        && final(self).l_panel == old(self).l_panel
                }
            }),
            editor_eq(*final(self), *old(self)),
            popup_eq(*final(self), *old(self)),
            old(self).wf() ==> final(self).wf(),
    {
        let target = self.cd_target(dir.as_str());
        if self.l_panel.active {
            self.l_panel.path = target;
            self.l_panel.index = 0;
            self.l_panel.items = read_items(listing);
        } else {
            self.r_panel.path = target;
            self.r_panel.index = 0;
            self.r_panel.items = read_items(listing);
        }
    }

    /// Moves the selection of the active panel `times` entries down, as
    /// `advance_index` describes: past the end it snaps to the last entry.
    /// The new selection always stays inside the listing.
    pub fn add_index(&mut self, times: usize)
        requires
            old(self).spec_active_panel().items@.len() > 0,
        ensures
            advanced(*old(self), *final(self), times as int),
            final(self).spec_active_panel().index < final(self).spec_active_panel().items@.len(),
    {
        let len = self.active_panel().items.len();
        let idx = self.active_panel().index;
        let cand = idx.saturating_add(times) % len;
        let ni = if cand > idx {
            cand
        } else {
            len - 1
        };
        self.set_active_panel_index(ni);
    }

    /// Moves the selection of the active panel `times` entries up, as
    /// `retreat_index` describes: past the top it wraps through the
    /// remainder.  The new selection always stays inside the listing.
    pub fn sub_index(&mut self, times: usize)
        requires
            old(self).spec_active_panel().items@.len() > 0,
        ensures
            retreated(*old(self), *final(self), times as int),
            final(self).spec_active_panel().index < final(self).spec_active_panel().items@.len(),
    {
        let len = self.active_panel().items.len();
        let idx = self.active_panel().index;
        let ni = idx.saturating_sub(times) % len;
        self.set_active_panel_index(ni);
    }
}

} // verus!
