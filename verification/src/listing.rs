//! The entries of a listing and their order.

use crate::order::{
    lemma_lex_antisymmetric, lemma_lex_reflexive, lemma_lex_total, lemma_lex_transitive, lex_le,
    text_le,
};
use vstd::multiset::{lemma_multiset_empty_len, Multiset};
use vstd::prelude::*;
use vstd::seq_lib::{
    lemma_multiset_commutative, to_multiset_build, to_multiset_contains, to_multiset_len,
    to_multiset_remove,
};

verus! {

broadcast use vstd::multiset::group_multiset_axioms;

/// One file, as a listing found it.
#[derive(Clone, Debug, PartialEq, Eq)]
pub struct FileEntry {
    /// The file's path.
    pub path: String,
    /// The file's path below the root of the listing.
    pub relative_path: String,
    /// The file's size in bytes; 0 where it could not be read.
    pub size: u64,
}

/// The mathematical value of a [`FileEntry`].
pub struct FileEntryView {
    pub path: Seq<char>,
    pub relative_path: Seq<char>,
    pub size: u64,
}

impl View for FileEntry {
    type V = FileEntryView;

    open spec fn view(&self) -> FileEntryView {
        FileEntryView { path: self.path@, relative_path: self.relative_path@, size: self.size }
    }
}

/// The values of a list of entries.
pub open spec fn entry_views(entries: Seq<FileEntry>) -> Seq<FileEntryView> {
    Seq::new(entries.len(), |i: int| entries[i]@)
}

/// Whether every entry comes before the entries after it, by relative path.
pub open spec fn ordered(entries: Seq<FileEntryView>) -> bool {
    forall|i: int, j: int|
        0 <= i < j < entries.len() ==> lex_le(
            #[trigger] entries[i].relative_path,
            #[trigger] entries[j].relative_path,
        )
}

/// Whether `listing` holds the entries of `found`, each as often as `found`
/// does, in order of relative path.
pub open spec fn is_listing_of(listing: Seq<FileEntryView>, found: Seq<FileEntryView>) -> bool {
    ordered(listing) && listing.to_multiset() == found.to_multiset()
}

/// Whether entries with the same relative path are the same entry.
pub open spec fn told_apart(entries: Seq<FileEntryView>) -> bool {
    forall|i: int, j: int|
        0 <= i < entries.len() && 0 <= j < entries.len() && entries[i].relative_path
            == entries[j].relative_path ==> entries[i] == entries[j]
}

/// Two ordered lists that hold the same entries are the same list, where
/// the relative path tells the entries apart.
pub proof fn lemma_ordered_unique(a: Seq<FileEntryView>, b: Seq<FileEntryView>)
    requires
        ordered(a),
        ordered(b),
        a.to_multiset() == b.to_multiset(),
        told_apart(a),
    ensures
        a == b,
    decreases a.len(),
{
    to_multiset_len(a);
    to_multiset_len(b);
    if a.len() == 0 {
        assert(a == b);
    } else {
        to_multiset_contains(a, a[0]);
        to_multiset_contains(b, a[0]);
        to_multiset_contains(a, b[0]);
        to_multiset_contains(b, b[0]);
        assert(a.contains(a[0]));
        assert(b.contains(b[0]));
        let k = choose|k: int| 0 <= k < b.len() && b[k] == a[0];
        let m = choose|m: int| 0 <= m < a.len() && a[m] == b[0];
        lemma_lex_reflexive(a[0].relative_path);
        lemma_lex_reflexive(b[0].relative_path);
        assert(lex_le(b[0].relative_path, b[k].relative_path));
        assert(lex_le(a[0].relative_path, a[m].relative_path));
        lemma_lex_antisymmetric(a[0].relative_path, b[0].relative_path);
        assert(a[0] == a[m]);
        let a1 = a.drop_first();
        let b1 = b.drop_first();
        assert(a1 == a.remove(0));
        assert(b1 == b.remove(0));
        to_multiset_remove(a, 0);
        to_multiset_remove(b, 0);
        assert forall|i: int, j: int| 0 <= i < j < a1.len() implies lex_le(
            #[trigger] a1[i].relative_path,
            #[trigger] a1[j].relative_path,
        ) by {
            assert(a1[i] == a[i + 1] && a1[j] == a[j + 1]);
        }
        assert forall|i: int, j: int| 0 <= i < j < b1.len() implies lex_le(
            #[trigger] b1[i].relative_path,
            #[trigger] b1[j].relative_path,
        ) by {
            assert(b1[i] == b[i + 1] && b1[j] == b[j + 1]);
        }
        assert forall|i: int, j: int|
            0 <= i < a1.len() && 0 <= j < a1.len() && a1[i].relative_path
                == a1[j].relative_path implies a1[i] == a1[j] by {
            assert(a1[i] == a[i + 1] && a1[j] == a[j + 1]);
        }
        lemma_ordered_unique(a1, b1);
        assert(a == seq![a[0]] + a1);
        assert(b == seq![b[0]] + b1);
    }
}

/// Where no two files found have the same relative path, as is the case
/// below one root, there is one listing of them and no other.
pub proof fn lemma_listing_unique(
    first: Seq<FileEntryView>,
    second: Seq<FileEntryView>,
    found: Seq<FileEntryView>,
)
    requires
        is_listing_of(first, found),
        is_listing_of(second, found),
        forall|i: int, j: int|
            0 <= i < j < found.len() ==> found[i].relative_path != found[j].relative_path,
    ensures
        first == second,
{
    assert forall|i: int, j: int|
        0 <= i < first.len() && 0 <= j < first.len() && first[i].relative_path
            == first[j].relative_path implies first[i] == first[j] by {
        to_multiset_contains(first, first[i]);
        to_multiset_contains(first, first[j]);
        to_multiset_contains(found, first[i]);
        to_multiset_contains(found, first[j]);
        assert(first.contains(first[i]));
        assert(first.contains(first[j]));
        let p = choose|p: int| 0 <= p < found.len() && found[p] == first[i];
        let q = choose|q: int| 0 <= q < found.len() && found[q] == first[j];
        assert(p == q);
    }
    lemma_ordered_unique(first, second);
}

impl FileEntry {
    /// A copy of the entry.
    pub fn copy(&self) -> (entry: FileEntry)
        ensures
            entry@ == self@,
    {
        FileEntry {
            path: self.path.clone(),
            relative_path: self.relative_path.clone(),
            size: self.size,
        }
    }
}

/// Brings two ordered lists together into one.
fn merge(left: &Vec<FileEntry>, right: &Vec<FileEntry>) -> (out: Vec<FileEntry>)
    requires
        ordered(entry_views(left@)),
        ordered(entry_views(right@)),
    ensures
        ordered(entry_views(out@)),
        entry_views(out@).to_multiset() == entry_views(left@).to_multiset().add(
            entry_views(right@).to_multiset(),
        ),
{
    let ghost a = entry_views(left@);
    let ghost b = entry_views(right@);
    let mut out: Vec<FileEntry> = Vec::new();
    let mut i: usize = 0;
    let mut j: usize = 0;
    proof {
        assert(a.take(0) == Seq::<FileEntryView>::empty());
        assert(b.take(0) == Seq::<FileEntryView>::empty());
        assert(entry_views(out@) == Seq::<FileEntryView>::empty());
        to_multiset_len(Seq::<FileEntryView>::empty());
        lemma_multiset_empty_len(Seq::<FileEntryView>::empty().to_multiset());
        assert(Seq::<FileEntryView>::empty().to_multiset() == Multiset::<FileEntryView>::empty());
        assert(Multiset::<FileEntryView>::empty().add(Multiset::<FileEntryView>::empty())
            == Multiset::<FileEntryView>::empty());
    }
    while i < left.len() || j < right.len()
        invariant
            a == entry_views(left@),
            b == entry_views(right@),
            ordered(a),
            ordered(b),
            i <= left@.len(),
            j <= right@.len(),
            ordered(entry_views(out@)),
            entry_views(out@).to_multiset() == a.take(i as int).to_multiset().add(
                b.take(j as int).to_multiset(),
            ),
            forall|k: int, m: int|
                0 <= k < out@.len() && i <= m < a.len() ==> lex_le(
                    #[trigger] entry_views(out@)[k].relative_path,
                    #[trigger] a[m].relative_path,
                ),
            forall|k: int, m: int|
                0 <= k < out@.len() && j <= m < b.len() ==> lex_le(
                    #[trigger] entry_views(out@)[k].relative_path,
                    #[trigger] b[m].relative_path,
                ),
        decreases left@.len() - i + right@.len() - j,
    {
        let ghost before = entry_views(out@);
        let take_left = if i >= left.len() {
            false
        } else if j >= right.len() {
            true
        } else {
            text_le(left[i].relative_path.as_str(), right[j].relative_path.as_str())
        };
        if take_left {
            let entry = left[i].copy();
            proof {
                let x = a[i as int];
                assert(entry@ == x);
                assert(entry_views(out@.push(entry)) == before.push(x));
                assert(a.take(i as int + 1) == a.take(i as int).push(x));
                to_multiset_build(before, x);
                to_multiset_build(a.take(i as int), x);
                assert(before.push(x).to_multiset() == a.take(i as int + 1).to_multiset().add(
                    b.take(j as int).to_multiset(),
                ));
                assert forall|k: int, m: int|
                    0 <= k < before.len() + 1 && j <= m < b.len() implies lex_le(
                    #[trigger] before.push(x)[k].relative_path,
                    #[trigger] b[m].relative_path,
                ) by {
                    if k == before.len() {
                        assert(lex_le(a[i as int].relative_path, b[j as int].relative_path));
                        if m > j {
                            assert(lex_le(b[j as int].relative_path, b[m].relative_path));
                            lemma_lex_transitive(
                                x.relative_path,
                                b[j as int].relative_path,
                                b[m].relative_path,
                            );
                        }
                    } else {
                        assert(before.push(x)[k] == before[k]);
                    }
                }
                assert forall|k: int, m: int|
                    0 <= k < before.len() + 1 && i + 1 <= m < a.len() implies lex_le(
                    #[trigger] before.push(x)[k].relative_path,
                    #[trigger] a[m].relative_path,
                ) by {
                    if k < before.len() {
                        assert(before.push(x)[k] == before[k]);
                    }
                }
                assert forall|k: int, m: int| 0 <= k < m < before.len() + 1 implies lex_le(
                    #[trigger] before.push(x)[k].relative_path,
                    #[trigger] before.push(x)[m].relative_path,
                ) by {
                    assert(before.push(x)[k] == before[k]);
                    if m < before.len() {
                        assert(before.push(x)[m] == before[m]);
                    }
                }
            }
            out.push(entry);
            i = i + 1;
        } else {
            let entry = right[j].copy();
            proof {
                let y = b[j as int];
                assert(entry@ == y);
                assert(entry_views(out@.push(entry)) == before.push(y));
                assert(b.take(j as int + 1) == b.take(j as int).push(y));
                to_multiset_build(before, y);
                to_multiset_build(b.take(j as int), y);
                assert(before.push(y).to_multiset() == a.take(i as int).to_multiset().add(
                    b.take(j as int + 1).to_multiset(),
                ));
                assert forall|k: int, m: int|
                    0 <= k < before.len() + 1 && i <= m < a.len() implies lex_le(
                    #[trigger] before.push(y)[k].relative_path,
                    #[trigger] a[m].relative_path,
                ) by {
                    if k == before.len() {
                        lemma_lex_total(a[i as int].relative_path, y.relative_path);
                        assert(lex_le(y.relative_path, a[i as int].relative_path));
                        if m > i {
                            assert(lex_le(a[i as int].relative_path, a[m].relative_path));
                            lemma_lex_transitive(
                                y.relative_path,
                                a[i as int].relative_path,
                                a[m].relative_path,
                            );
                        }
                    } else {
                        assert(before.push(y)[k] == before[k]);
                    }
                }
                assert forall|k: int, m: int|
                    0 <= k < before.len() + 1 && j + 1 <= m < b.len() implies lex_le(
                    #[trigger] before.push(y)[k].relative_path,
                    #[trigger] b[m].relative_path,
                ) by {
                    if k < before.len() {
                        assert(before.push(y)[k] == before[k]);
                    }
                }
                assert forall|k: int, m: int| 0 <= k < m < before.len() + 1 implies lex_le(
                    #[trigger] before.push(y)[k].relative_path,
                    #[trigger] before.push(y)[m].relative_path,
                ) by {
                    assert(before.push(y)[k] == before[k]);
                    if m < before.len() {
                        assert(before.push(y)[m] == before[m]);
                    }
                }
            }
            out.push(entry);
            j = j + 1;
        }
    }
    proof {
        assert(a.take(i as int) == a);
        assert(b.take(j as int) == b);
    }
    out
}

/// Puts `entries` in order of relative path.
pub fn sort_entries(entries: Vec<FileEntry>) -> (listing: Vec<FileEntry>)
    ensures
        is_listing_of(entry_views(listing@), entry_views(entries@)),
    decreases entries@.len(),
{
    let n: usize = entries.len();
    if n <= 1 {
        return entries;
    }
    let mut left = entries;
    let ghost whole = entry_views(left@);
    let right = left.split_off(n / 2);
    proof {
        assert(whole == entry_views(left@) + entry_views(right@));
        lemma_multiset_commutative(entry_views(left@), entry_views(right@));
    }
    let left = sort_entries(left);
    let right = sort_entries(right);
    merge(&left, &right)
}

} // verus!
