//! Order of panel listings.
//!
//! A listing shows directories before files and, inside each of the two
//! groups, its entries in the lexicographic order of their display strings.
//! The sort is a stable insertion sort: entries with equal keys keep their
//! relative order.

use vstd::prelude::*;
use crate::pathops::{lex_le, lemma_lex_le_total, lemma_lex_le_trans};

verus! {

/// The listing order on (directory flag, display string) keys: a directory
/// comes before a file, inside a group the display strings decide.
pub open spec fn entry_le(a_dir: bool, a_path: Seq<char>, b_dir: bool, b_path: Seq<char>) -> bool {
    if a_dir != b_dir {
        a_dir
    } else {
        lex_le(a_path, b_path)
    }
}

pub proof fn lemma_entry_le_total(a_dir: bool, a_path: Seq<char>, b_dir: bool, b_path: Seq<char>)
    ensures
        entry_le(a_dir, a_path, b_dir, b_path) || entry_le(b_dir, b_path, a_dir, a_path),
{
    if a_dir == b_dir {
        lemma_lex_le_total(a_path, b_path);
    }
}

pub proof fn lemma_entry_le_trans(
    a_dir: bool,
    a_path: Seq<char>,
    b_dir: bool,
    b_path: Seq<char>,
    c_dir: bool,
    c_path: Seq<char>,
)
    requires
        entry_le(a_dir, a_path, b_dir, b_path),
        entry_le(b_dir, b_path, c_dir, c_path),
    ensures
        entry_le(a_dir, a_path, c_dir, c_path),
{
    if a_dir == b_dir && b_dir == c_dir {
        lemma_lex_le_trans(a_path, b_path, c_path);
    }
}

/// A directory entry as the listing order sees it: a directory flag and a
/// display string, with an executable comparison that decides `entry_le`.
pub trait ListEntry: Sized {
    spec fn entry_is_dir(&self) -> bool;

    spec fn entry_path(&self) -> Seq<char>;

    fn le(&self, other: &Self) -> (r: bool)
        ensures
            r == entry_le(
                self.entry_is_dir(),
                self.entry_path(),
                other.entry_is_dir(),
                other.entry_path(),
            ),
    ;
}

/// The ghost images of a sequence of entries.
pub open spec fn views_of<T: DeepView>(s: Seq<T>) -> Seq<T::V> {
    Seq::new(s.len(), |i: int| s[i].deep_view())
}

/// The listing order lifted to two entries.
pub open spec fn le_of<T: ListEntry>(a: T, b: T) -> bool {
    entry_le(a.entry_is_dir(), a.entry_path(), b.entry_is_dir(), b.entry_path())
}

/// Whether a sequence of entries is in listing order.
pub open spec fn entries_sorted<T: ListEntry>(s: Seq<T>) -> bool {
    forall|a: int, b: int| 0 <= a < b < s.len() ==> #[trigger] le_of(s[a], s[b])
}

proof fn lemma_to_multiset_insert<A>(s: Seq<A>, p: int, x: A)
    requires
        0 <= p <= s.len(),
    ensures
        s.insert(p, x).to_multiset() =~= s.to_multiset().insert(x),
{
    broadcast use vstd::seq_lib::group_to_multiset_ensures;
    broadcast use vstd::multiset::group_multiset_axioms;

    let a = s.subrange(0, p);
    let b = s.subrange(p, s.len() as int);
    assert(s =~= a + b);
    assert(s.insert(p, x) =~= a.push(x) + b);
    vstd::seq_lib::lemma_multiset_commutative(a.push(x), b);
    vstd::seq_lib::lemma_multiset_commutative(a, b);
    assert(a.push(x).to_multiset() =~= a.to_multiset().insert(x));
    assert((a.push(x) + b).to_multiset() =~= a.to_multiset().insert(x).add(b.to_multiset()));
    assert(a.to_multiset().insert(x).add(b.to_multiset()) =~= a.to_multiset().add(
        b.to_multiset(),
    ).insert(x));
}

/// Sorts the entries into listing order; the result holds exactly the
/// entries that went in.
pub fn sort_entries<T: ListEntry + DeepView>(v: &mut Vec<T>)
    ensures
        entries_sorted(final(v)@),
        final(v)@.to_multiset() == old(v)@.to_multiset(),
        views_of(final(v)@).to_multiset() == views_of(old(v)@).to_multiset(),
        final(v)@.len() == old(v)@.len(),
{
    proof {
        broadcast use vstd::seq_lib::group_to_multiset_ensures;
    }
    if v.len() <= 1 {
        return ;
    }
    let mut i: usize = 1;
    while i < v.len()
        invariant
            1 <= i <= v@.len(),
            v@.len() == old(v)@.len(),
            v@.to_multiset() =~= old(v)@.to_multiset(),
            views_of(v@).to_multiset() =~= views_of(old(v)@).to_multiset(),
            entries_sorted(v@.subrange(0, i as int)),
        decreases v@.len() - i,
    {
        let mut p: usize = 0;
        while p < i && v[p].le(&v[i])
            invariant
                0 <= p <= i < v@.len(),
                forall|k: int| 0 <= k < p ==> #[trigger] le_of(v@[k], v@[i as int]),
            decreases i - p,
        {
            p = p + 1;
        }
        let ghost mid = v@;
        let x = v.remove(i);
        v.insert(p, x);
        proof {
            broadcast use vstd::seq_lib::group_to_multiset_ensures;
            broadcast use vstd::multiset::group_multiset_axioms;

            let w = v@;
            let xv = mid[i as int];
            mid.remove_ensures(i as int);
            mid.remove(i as int).insert_ensures(p as int, xv);
            assert forall|k: int| 0 <= k < p implies w[k] == mid[k] by {}
            assert(w[p as int] == xv);
            assert forall|k: int| p < k <= i implies w[k] == mid[k - 1] by {}
            assert(mid.remove(i as int).to_multiset() =~= mid.to_multiset().remove(xv));
            lemma_to_multiset_insert(mid.remove(i as int), p as int, xv);
            assert(mid[i as int] == xv && 0 <= i < mid.len());
            assert(mid.contains(xv));
            assert(mid.to_multiset().count(xv) > 0);
            assert(mid.to_multiset().remove(xv).insert(xv) =~= mid.to_multiset());
            assert(w.to_multiset() =~= mid.to_multiset());
            let dmid = views_of(mid);
            let dw = views_of(w);
            dmid.remove_ensures(i as int);
            dmid.remove(i as int).insert_ensures(p as int, dmid[i as int]);
            assert(dw =~= dmid.remove(i as int).insert(p as int, dmid[i as int]));
            assert(dmid.remove(i as int).to_multiset() =~= dmid.to_multiset().remove(
                dmid[i as int],
            ));
            lemma_to_multiset_insert(dmid.remove(i as int), p as int, dmid[i as int]);
            assert(dmid[i as int] == dmid[i as int] && 0 <= i < dmid.len());
            assert(dmid.contains(dmid[i as int]));
            assert(dmid.to_multiset().count(dmid[i as int]) > 0);
            assert(dmid.to_multiset().remove(dmid[i as int]).insert(dmid[i as int])
                =~= dmid.to_multiset());
            assert(dw.to_multiset() =~= dmid.to_multiset());
            if p < i {
                lemma_entry_le_total(
                    mid[p as int].entry_is_dir(),
                    mid[p as int].entry_path(),
                    xv.entry_is_dir(),
                    xv.entry_path(),
                );
                assert(le_of(xv, mid[p as int]));
            }
            assert forall|k: int| p <= k < i implies le_of(xv, mid[k]) by {
                if k > p {
                    assert(mid.subrange(0, i as int)[p as int] == mid[p as int]);
                    assert(mid.subrange(0, i as int)[k] == mid[k]);
                    assert(le_of(mid.subrange(0, i as int)[p as int], mid.subrange(0, i as int)[k]));
                    assert(le_of(mid[p as int], mid[k]));
                    lemma_entry_le_trans(
                        xv.entry_is_dir(),
                        xv.entry_path(),
                        mid[p as int].entry_is_dir(),
                        mid[p as int].entry_path(),
                        mid[k].entry_is_dir(),
                        mid[k].entry_path(),
                    );
                }
            }
            assert forall|a: int, b: int| 0 <= a < b < i + 1 implies #[trigger] le_of(
                w.subrange(0, i + 1)[a],
                w.subrange(0, i + 1)[b],
            ) by {
                assert(w.subrange(0, i + 1)[a] == w[a]);
                assert(w.subrange(0, i + 1)[b] == w[b]);
                if b < p {
                    assert(le_of(mid[a], mid[b]));
                } else if b == p {
                    assert(le_of(mid[a], xv));
                } else if a == p {
                    assert(le_of(xv, mid[b - 1]));
                } else if a < p {
                    assert(le_of(mid[a], mid[b - 1]));
                } else {
                    assert(le_of(mid[a - 1], mid[b - 1]));
                }
            }
            assert(entries_sorted(w.subrange(0, i + 1)));
        }
        i = i + 1;
    }
    proof {
        assert(v@.subrange(0, v@.len() as int) =~= v@);
    }
}

} // verus!
