//! The order of strings (by code points, as `str::cmp` orders them) and a
//! stable sort of records by a text key.

use vstd::prelude::*;
use vstd::multiset::Multiset;
use crate::text::chars_of;

verus! {

/// `a` comes before `b` when the two are compared from position `i` on.
pub open spec fn text_lt_from(a: Seq<char>, b: Seq<char>, i: int) -> bool
    decreases a.len() - i,
{
    if i < 0 || i >= a.len() {
        0 <= i < b.len()
    } else if i >= b.len() {
        false
    } else if a[i] != b[i] {
        a[i] < b[i]
    } else {
        text_lt_from(a, b, i + 1)
    }
}

/// Lexicographic order of character sequences: the first differing
/// character decides, and a proper prefix comes first.
pub open spec fn text_lt(a: Seq<char>, b: Seq<char>) -> bool {
    text_lt_from(a, b, 0)
}

proof fn lemma_lt_from_irreflexive(a: Seq<char>, i: int)
    requires
        0 <= i,
    ensures
        !text_lt_from(a, a, i),
    decreases a.len() - i,
{
    if i < a.len() {
        lemma_lt_from_irreflexive(a, i + 1);
    }
}

proof fn lemma_lt_from_asymmetric(a: Seq<char>, b: Seq<char>, i: int)
    requires
        0 <= i,
        text_lt_from(a, b, i),
    ensures
        !text_lt_from(b, a, i),
    decreases a.len() - i,
{
    if i < a.len() && i < b.len() && a[i] == b[i] {
        lemma_lt_from_asymmetric(a, b, i + 1);
    }
}

proof fn lemma_lt_from_total(a: Seq<char>, b: Seq<char>, i: int)
    requires
        0 <= i <= a.len(),
        i <= b.len(),
        forall|k: int| 0 <= k < i ==> a[k] == b[k],
        !text_lt_from(a, b, i),
        !text_lt_from(b, a, i),
    ensures
        a == b,
    decreases a.len() - i,
{
    if i < a.len() && i < b.len() {
        if a[i] == b[i] {
            lemma_lt_from_total(a, b, i + 1);
        }
    } else {
        assert(a =~= b);
    }
}

proof fn lemma_lt_from_transitive(a: Seq<char>, b: Seq<char>, c: Seq<char>, i: int)
    requires
        0 <= i,
        text_lt_from(a, b, i),
        text_lt_from(b, c, i),
    ensures
        text_lt_from(a, c, i),
    decreases a.len() - i,
{
    if i < a.len() && i < b.len() && i < c.len() && a[i] == b[i] && b[i] == c[i] {
        lemma_lt_from_transitive(a, b, c, i + 1);
    }
}

/// No text comes before itself.
pub proof fn lemma_text_lt_irreflexive(a: Seq<char>)
    ensures
        !text_lt(a, a),
{
    lemma_lt_from_irreflexive(a, 0);
}

/// Of two different texts exactly one comes first.
pub proof fn lemma_text_lt_total(a: Seq<char>, b: Seq<char>)
    ensures
        a != b ==> text_lt(a, b) || text_lt(b, a),
        text_lt(a, b) ==> !text_lt(b, a),
{
    if text_lt(a, b) {
        lemma_lt_from_asymmetric(a, b, 0);
    }
    if a != b && !text_lt(a, b) && !text_lt(b, a) {
        lemma_lt_from_total(a, b, 0);
    }
}

/// The order is transitive.
pub proof fn lemma_text_lt_transitive(a: Seq<char>, b: Seq<char>, c: Seq<char>)
    requires
        text_lt(a, b),
        text_lt(b, c),
    ensures
        text_lt(a, c),
{
    lemma_lt_from_transitive(a, b, c, 0);
}

/// Whether `a` comes strictly before `b` (`a < b` on `str`).
pub fn text_less(a: &str, b: &str) -> (r: bool)
    ensures
        r == text_lt(a@, b@),
{
    let x = chars_of(a);
    let y = chars_of(b);
    let mut i: usize = 0;
    while i < x.len() && i < y.len()
        invariant
            x@ == a@,
            y@ == b@,
            i <= x.len(),
            i <= y.len(),
            text_lt(a@, b@) == text_lt_from(a@, b@, i as int),
        decreases x.len() - i,
    {
        if x[i] != y[i] {
            return x[i] < y[i];
        }
        i = i + 1;
    }
    i < y.len() && i >= x.len()
}

/// Records that carry a text by which they are ordered.
pub trait KeyedByText {
    spec fn text_key(&self) -> Seq<char>;

    fn key_text(&self) -> (r: &str)
        ensures
            r@ == self.text_key();
}

/// Keys never decrease along the sequence.
pub open spec fn sorted_by_key<T: KeyedByText>(s: Seq<T>) -> bool {
    forall|i: int, j: int| 0 <= i < j < s.len() ==> !text_lt(#[trigger] s[j].text_key(), #[trigger] s[i].text_key())
}

/// Index of the first record with the least key.
fn first_least<T: KeyedByText>(v: &Vec<T>) -> (m: usize)
    requires
        v.len() > 0,
    ensures
        m < v.len(),
        forall|k: int| 0 <= k < v.len() ==> !text_lt(#[trigger] v@[k].text_key(), v@[m as int].text_key()),
        forall|k: int| 0 <= k < m ==> text_lt(v@[m as int].text_key(), #[trigger] v@[k].text_key()),
{
    let mut best: usize = 0;
    let mut j: usize = 1;
    proof {
        lemma_text_lt_irreflexive(v@[0].text_key());
    }
    while j < v.len()
        invariant
            v.len() > 0,
            best < j <= v.len(),
            forall|k: int| 0 <= k < j ==> !text_lt(#[trigger] v@[k].text_key(), v@[best as int].text_key()),
            forall|k: int| 0 <= k < best ==> text_lt(v@[best as int].text_key(), #[trigger] v@[k].text_key()),
        decreases v.len() - j,
    {
        if text_less(v[j].key_text(), v[best].key_text()) {
            proof {
                let nb = v@[j as int].text_key();
                let ob = v@[best as int].text_key();
                assert forall|k: int| 0 <= k < j + 1 implies !text_lt(#[trigger] v@[k].text_key(), nb) by {
                    if k == j {
                        lemma_text_lt_irreflexive(nb);
                    } else if text_lt(v@[k].text_key(), nb) {
                        lemma_text_lt_transitive(v@[k].text_key(), nb, ob);
                    }
                }
                assert forall|k: int| 0 <= k < j implies text_lt(nb, #[trigger] v@[k].text_key()) by {
                    lemma_text_lt_total(nb, v@[k].text_key());
                    if k != best {
                        assert(!text_lt(v@[k].text_key(), ob));
                        lemma_text_lt_total(ob, v@[k].text_key());
                        if ob != v@[k].text_key() {
                            lemma_text_lt_transitive(nb, ob, v@[k].text_key());
                        }
                    }
                }
            }
            best = j;
        } else {
            proof {
                lemma_text_lt_total(v@[j as int].text_key(), v@[best as int].text_key());
            }
        }
        j = j + 1;
    }
    best
}

/// `r` holds the records of `items` rearranged by `perm` (a one-to-one
/// choice of positions), with records of equal keys in their old order.
pub open spec fn stable_rearrangement<T: KeyedByText>(r: Seq<T>, items: Seq<T>, perm: Seq<int>) -> bool {
    &&& perm.len() == r.len() == items.len()
    &&& forall|i: int| 0 <= i < r.len() ==> 0 <= #[trigger] perm[i] < items.len() && r[i] == items[perm[i]]
    &&& forall|a: int, b: int| 0 <= a < b < r.len() ==> #[trigger] perm[a] != #[trigger] perm[b]
    &&& forall|a: int, b: int| 0 <= a < b < r.len() && (#[trigger] r[a]).text_key() == (#[trigger] r[b]).text_key() ==> perm[a] < perm[b]
}

/// Sorts records by key, keeping records of equal keys in their order
/// (`sort_by` on the key's `cmp`). The result holds the same records.
pub fn sort_by_text_key<T: KeyedByText>(items: Vec<T>) -> (r: Vec<T>)
    ensures
        r@.to_multiset() == items@.to_multiset(),
        r@.len() == items@.len(),
        sorted_by_key(r@),
        exists|perm: Seq<int>| #[trigger] stable_rearrangement(r@, items@, perm),
{
    broadcast use vstd::seq_lib::group_to_multiset_ensures;
    let ghost orig = items@;
    let ghost n = orig.len() as int;
    let mut rest = items;
    let mut r: Vec<T> = Vec::new();
    let ghost mut perm: Seq<int> = Seq::empty();
    let ghost mut idx: Seq<int> = Seq::new(orig.len(), |j: int| j);
    proof {
        assert(r@.to_multiset() =~= Multiset::<T>::empty());
        assert(r@.to_multiset().add(rest@.to_multiset()) =~= orig.to_multiset());
    }
    while rest.len() > 0
        invariant
            n == orig.len(),
            r@.to_multiset().add(rest@.to_multiset()) == orig.to_multiset(),
            r@.len() + rest@.len() == orig.len(),
            sorted_by_key(r@),
            forall|i: int, j: int| 0 <= i < r@.len() && 0 <= j < rest@.len()
                ==> !text_lt(#[trigger] rest@[j].text_key(), #[trigger] r@[i].text_key()),
            perm.len() == r@.len(),
            idx.len() == rest@.len(),
            forall|i: int| 0 <= i < r@.len() ==> 0 <= #[trigger] perm[i] < n && r@[i] == orig[perm[i]],
            forall|j: int| 0 <= j < rest@.len() ==> 0 <= #[trigger] idx[j] < n && rest@[j] == orig[idx[j]],
            forall|a: int, b: int| 0 <= a < b < perm.len() ==> #[trigger] perm[a] != #[trigger] perm[b],
            forall|a: int, b: int| 0 <= a < b < idx.len() ==> #[trigger] idx[a] < #[trigger] idx[b],
            forall|a: int, b: int| 0 <= a < perm.len() && 0 <= b < idx.len() ==> #[trigger] perm[a] != #[trigger] idx[b],
            forall|a: int, b: int| 0 <= a < b < r@.len() && (#[trigger] r@[a]).text_key() == (#[trigger] r@[b]).text_key()
                ==> perm[a] < perm[b],
            forall|i: int, j: int| 0 <= i < r@.len() && 0 <= j < rest@.len()
                && (#[trigger] r@[i]).text_key() == (#[trigger] rest@[j]).text_key() ==> perm[i] < idx[j],
        decreases rest.len(),
    {
        let m = first_least(&rest);
        let ghost before = rest@;
        let ghost r_before = r@;
        let ghost perm_before = perm;
        let ghost idx_before = idx;
        let x = rest.remove(m);
        proof {
            assert(rest@ == before.remove(m as int));
            vstd::seq_lib::to_multiset_remove(before, m as int);
            vstd::seq_lib::to_multiset_build(r_before, x);
            before.to_multiset_ensures();
            assert(before.contains(x)) by { assert(before[m as int] == x); }
            assert(before.to_multiset().count(x) > 0);
            perm = perm_before.push(idx_before[m as int]);
            idx = idx_before.remove(m as int);
        }
        r.push(x);
        proof {
            assert(r@ == r_before.push(x));
            assert(r@.to_multiset().add(rest@.to_multiset()) =~= orig.to_multiset());
            assert forall|i: int, j: int| 0 <= i < j < r@.len() implies !text_lt(#[trigger] r@[j].text_key(), #[trigger] r@[i].text_key()) by {
                if j == r@.len() - 1 {
                    assert(r@[j] == before[m as int]);
                    assert(r@[i] == r_before[i]);
                } else {
                    assert(r@[j] == r_before[j]);
                    assert(r@[i] == r_before[i]);
                }
            }
            assert forall|i: int, j: int| 0 <= i < r@.len() && 0 <= j < rest@.len()
                implies !text_lt(#[trigger] rest@[j].text_key(), #[trigger] r@[i].text_key()) by {
                let jj = if j < m { j } else { j + 1 };
                assert(rest@[j] == before[jj]);
                if i == r@.len() - 1 {
                    assert(r@[i] == before[m as int]);
                } else {
                    assert(r@[i] == r_before[i]);
                }
            }
            assert forall|i: int| 0 <= i < r@.len() implies 0 <= #[trigger] perm[i] < n && r@[i] == orig[perm[i]] by {
                if i < r_before.len() {
                    assert(perm[i] == perm_before[i]);
                    assert(r@[i] == r_before[i]);
                } else {
                    assert(perm[i] == idx_before[m as int]);
                }
            }
            assert forall|j: int| 0 <= j < rest@.len() implies 0 <= #[trigger] idx[j] < n && rest@[j] == orig[idx[j]] by {
                let jj = if j < m { j } else { j + 1 };
                assert(rest@[j] == before[jj]);
                assert(idx[j] == idx_before[jj]);
            }
            assert forall|a: int, b: int| 0 <= a < b < perm.len() implies #[trigger] perm[a] != #[trigger] perm[b] by {
                if b == perm.len() - 1 {
                    assert(perm[a] == perm_before[a]);
                    assert(perm[b] == idx_before[m as int]);
                } else {
                    assert(perm[a] == perm_before[a]);
                    assert(perm[b] == perm_before[b]);
                }
            }
            assert forall|a: int, b: int| 0 <= a < b < idx.len() implies #[trigger] idx[a] < #[trigger] idx[b] by {
                let aa = if a < m { a } else { a + 1 };
                let bb = if b < m { b } else { b + 1 };
                assert(idx[a] == idx_before[aa]);
                assert(idx[b] == idx_before[bb]);
            }
            assert forall|a: int, b: int| 0 <= a < perm.len() && 0 <= b < idx.len() implies #[trigger] perm[a] != #[trigger] idx[b] by {
                let bb = if b < m { b } else { b + 1 };
                assert(idx[b] == idx_before[bb]);
                if a == perm.len() - 1 {
                    assert(perm[a] == idx_before[m as int]);
                    assert(bb != m);
                    if bb < m {
                        assert(idx_before[bb] < idx_before[m as int]);
                    } else {
                        assert(idx_before[m as int] < idx_before[bb]);
                    }
                } else {
                    assert(perm[a] == perm_before[a]);
                }
            }
            assert forall|a: int, b: int| 0 <= a < b < r@.len() && (#[trigger] r@[a]).text_key() == (#[trigger] r@[b]).text_key()
                implies perm[a] < perm[b] by {
                assert(perm[a] == perm_before[a]);
                assert(r@[a] == r_before[a]);
                if b == r@.len() - 1 {
                    assert(r@[b] == before[m as int]);
                    assert(perm[b] == idx_before[m as int]);
                } else {
                    assert(r@[b] == r_before[b]);
                    assert(perm[b] == perm_before[b]);
                }
            }
            assert forall|i: int, j: int| 0 <= i < r@.len() && 0 <= j < rest@.len()
                && (#[trigger] r@[i]).text_key() == (#[trigger] rest@[j]).text_key() implies perm[i] < idx[j] by {
                let jj = if j < m { j } else { j + 1 };
                assert(rest@[j] == before[jj]);
                assert(idx[j] == idx_before[jj]);
                if i == r@.len() - 1 {
                    assert(r@[i] == before[m as int]);
                    assert(perm[i] == idx_before[m as int]);
                    if jj < m {
                        assert(text_lt(before[m as int].text_key(), before[jj].text_key()));
                        lemma_text_lt_irreflexive(before[jj].text_key());
                    }
                } else {
                    assert(r@[i] == r_before[i]);
                    assert(perm[i] == perm_before[i]);
                }
            }
        }
    }
    proof {
        assert(stable_rearrangement(r@, orig, perm));
    }
    r
}

} // verus!
