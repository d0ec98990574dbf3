//! Directory listings in display order: directories first, then names compared
//! case-insensitively, equal keys kept in the order they were read.

use vstd::prelude::*;
use crate::text::{
    chars_before, chars_less, lemma_chars_before_asymmetric, lemma_chars_before_irreflexive,
    lemma_chars_before_total, lemma_chars_before_transitive, lowercase, lowercase_chars,
};

verus! {

/// The sort key of an entry: whether it is a directory and its lower-cased name.
/// `a` sorts strictly before `b`.
pub open spec fn key_before(a_dir: bool, a_low: Seq<char>, b_dir: bool, b_low: Seq<char>) -> bool {
    (a_dir && !b_dir) || (a_dir == b_dir && chars_before(a_low, b_low))
}

/// An entry of a directory listing, as the listing order sees it.
pub trait ListedEntry: Sized {
    /// Whether the entry is a directory.
    spec fn listed_is_dir(&self) -> bool;

    /// The entry's file name.
    spec fn listed_name(&self) -> Seq<char>;

    fn is_dir_flag(&self) -> (b: bool)
        ensures
            b == self.listed_is_dir(),
    ;

    fn name_str(&self) -> (s: &str)
        ensures
            s@ == self.listed_name(),
    ;

    fn duplicate(&self) -> (r: Self)
        ensures
            r == *self,
    ;
}

/// `a` sorts strictly before `b` in a listing.
pub open spec fn entry_before<T: ListedEntry>(a: T, b: T) -> bool {
    key_before(
        a.listed_is_dir(),
        lowercase(a.listed_name()),
        b.listed_is_dir(),
        lowercase(b.listed_name()),
    )
}

/// No entry of `s` sorts strictly before an entry in front of it.
pub open spec fn listing_sorted<T: ListedEntry>(s: Seq<T>) -> bool {
    forall|i: int, j: int| 0 <= i < j < s.len() ==> !entry_before(#[trigger] s[j], #[trigger] s[i])
}

/// `perm` lists each of the indices `0..n` once.
pub open spec fn is_rearrangement(perm: Seq<usize>, n: nat) -> bool {
    &&& perm.len() == n
    &&& forall|k: int| 0 <= k < perm.len() ==> (#[trigger] perm[k] as nat) < n
    &&& perm.no_duplicates()
}

/// `r` holds the entries of `v` rearranged by `perm`, sorted for a listing, and
/// entries with equal keys keep their order in `v`.
pub open spec fn stable_sorted_by<T: ListedEntry>(r: Seq<T>, v: Seq<T>, perm: Seq<usize>) -> bool {
    &&& is_rearrangement(perm, v.len())
    &&& r.len() == v.len()
    &&& forall|k: int| 0 <= k < r.len() ==> #[trigger] r[k] == v[perm[k] as int]
    &&& listing_sorted(r)
    &&& forall|k: int, l: int|
        0 <= k < l < r.len() && !entry_before(r[k], r[l]) ==> #[trigger] perm[k] < #[trigger] perm[l]
}

/// Sorting is irreflexive, asymmetric and transitive, and keys of which neither
/// sorts before the other are equal.
pub proof fn lemma_key_before_laws(a_dir: bool, a_low: Seq<char>, b_dir: bool, b_low: Seq<char>)
    ensures
        !key_before(a_dir, a_low, a_dir, a_low),
        !(key_before(a_dir, a_low, b_dir, b_low) && key_before(b_dir, b_low, a_dir, a_low)),
        !key_before(a_dir, a_low, b_dir, b_low) && !key_before(b_dir, b_low, a_dir, a_low) ==> a_dir
            == b_dir && a_low == b_low,
{
    lemma_chars_before_irreflexive(a_low);
    lemma_chars_before_asymmetric(a_low, b_low);
    lemma_chars_before_total(a_low, b_low);
}

/// Sorting strictly before is transitive.
pub proof fn lemma_key_before_transitive(
    a_dir: bool,
    a_low: Seq<char>,
    b_dir: bool,
    b_low: Seq<char>,
    c_dir: bool,
    c_low: Seq<char>,
)
    requires
        key_before(a_dir, a_low, b_dir, b_low),
        key_before(b_dir, b_low, c_dir, c_low),
    ensures
        key_before(a_dir, a_low, c_dir, c_low),
{
    if a_dir == b_dir && b_dir == c_dir {
        lemma_chars_before_transitive(a_low, b_low, c_low);
    }
}

/// Not sorting before is transitive too (the order is a total preorder).
pub proof fn lemma_key_not_before_transitive(
    a_dir: bool,
    a_low: Seq<char>,
    b_dir: bool,
    b_low: Seq<char>,
    c_dir: bool,
    c_low: Seq<char>,
)
    requires
        !key_before(b_dir, b_low, a_dir, a_low),
        !key_before(c_dir, c_low, b_dir, b_low),
    ensures
        !key_before(c_dir, c_low, a_dir, a_low),
{
    if key_before(c_dir, c_low, a_dir, a_low) {
        lemma_key_before_laws(a_dir, a_low, b_dir, b_low);
        lemma_key_before_laws(b_dir, b_low, c_dir, c_low);
        lemma_key_before_laws(a_dir, a_low, c_dir, c_low);
        lemma_chars_before_total(a_low, b_low);
        lemma_chars_before_total(b_low, c_low);
        if key_before(a_dir, a_low, b_dir, b_low) {
            lemma_key_before_transitive(c_dir, c_low, a_dir, a_low, b_dir, b_low);
        } else {
            assert(a_dir == b_dir && a_low == b_low);
        }
    }
}

fn key_less(a_dir: bool, a_low: &Vec<char>, b_dir: bool, b_low: &Vec<char>) -> (r: bool)
    ensures
        r == key_before(a_dir, a_low@, b_dir, b_low@),
{
    if a_dir && !b_dir {
        true
    } else if a_dir == b_dir {
        chars_less(a_low, b_low)
    } else {
        false
    }
}

spec fn keys_before(keys: Seq<(bool, Vec<char>)>, a: usize, b: usize) -> bool {
    key_before(keys[a as int].0, keys[a as int].1@, keys[b as int].0, keys[b as int].1@)
}

/// Indices `0..keys.len()` ordered by key, ties in increasing index order.
fn sort_permutation(keys: &Vec<(bool, Vec<char>)>) -> (perm: Vec<usize>)
    ensures
        is_rearrangement(perm@, keys@.len()),
        forall|i: int, j: int| 0 <= i < j < perm@.len() ==> !keys_before(keys@, #[trigger] perm@[j], #[trigger] perm@[i]),
        forall|i: int, j: int|
            0 <= i < j < perm@.len() && !keys_before(keys@, perm@[i], perm@[j]) ==> #[trigger] perm@[i] < #[trigger] perm@[j],
{
    let n = keys.len();
    let mut perm: Vec<usize> = Vec::new();
    let mut next: usize = n;
    while next > 0
        invariant
            next <= n,
            n == keys@.len(),
            perm@.len() == n - next,
            forall|k: int| 0 <= k < perm@.len() ==> next <= #[trigger] perm@[k] < n,
            perm@.no_duplicates(),
            forall|i: int, j: int| 0 <= i < j < perm@.len() ==> !keys_before(keys@, #[trigger] perm@[j], #[trigger] perm@[i]),
            forall|i: int, j: int|
                0 <= i < j < perm@.len() && !keys_before(keys@, perm@[i], perm@[j]) ==> #[trigger] perm@[i] < #[trigger] perm@[j],
        decreases next,
    {
        let x = next - 1;
        let mut lo: usize = 0;
        let mut hi: usize = perm.len();
        while lo < hi
            invariant
                lo <= hi <= perm@.len(),
                x < n,
                n == keys@.len(),
                forall|k: int| 0 <= k < perm@.len() ==> (#[trigger] perm@[k] as int) < n,
                forall|i: int, j: int| 0 <= i < j < perm@.len() ==> !keys_before(keys@, #[trigger] perm@[j], #[trigger] perm@[i]),
                forall|p: int| 0 <= p < lo ==> keys_before(keys@, #[trigger] perm@[p], x),
                forall|p: int| hi <= p < perm@.len() ==> !keys_before(keys@, #[trigger] perm@[p], x),
            decreases hi - lo,
        {
            let mid = lo + (hi - lo) / 2;
            let m = perm[mid];
            if key_less(keys[m].0, &keys[m].1, keys[x].0, &keys[x].1) {
                assert forall|p: int| 0 <= p <= mid implies keys_before(keys@, #[trigger] perm@[p], x) by {
                    if p < mid {
                        let a = perm@[p];
                        let b = perm@[mid as int];
                        assert(!keys_before(keys@, b, a));
                        lemma_key_before_laws(keys@[a as int].0, keys@[a as int].1@, keys@[b as int].0, keys@[b as int].1@);
                        if keys_before(keys@, a, b) {
                            lemma_key_before_transitive(
                                keys@[a as int].0, keys@[a as int].1@,
                                keys@[b as int].0, keys@[b as int].1@,
                                keys@[x as int].0, keys@[x as int].1@,
                            );
                        }
                    }
                }
                lo = mid + 1;
            } else {
                assert forall|p: int| mid <= p < perm@.len() implies !keys_before(keys@, #[trigger] perm@[p], x) by {
                    if p > mid {
                        let a = perm@[mid as int];
                        let b = perm@[p];
                        assert(!keys_before(keys@, b, a));
                        lemma_key_not_before_transitive(
                            keys@[x as int].0, keys@[x as int].1@,
                            keys@[a as int].0, keys@[a as int].1@,
                            keys@[b as int].0, keys@[b as int].1@,
                        );
                    }
                }
                hi = mid;
            }
        }
        let pos = lo;
        let ghost old_perm = perm@;
        perm.insert(pos, x);
        proof {
            let np = perm@;
            assert(np =~= old_perm.insert(pos as int, x));
            assert forall|k: int| 0 <= k < np.len() implies x <= #[trigger] np[k] < n by {
                if k < pos {
                    assert(np[k] == old_perm[k]);
                } else if k > pos {
                    assert(np[k] == old_perm[k - 1]);
                }
            }
            assert forall|i: int, j: int| 0 <= i < np.len() && 0 <= j < np.len() && i != j implies np[i] != np[j] by {
                if i != pos as int && j != pos as int {
                    let oi = if i < pos { i } else { i - 1 };
                    let oj = if j < pos { j } else { j - 1 };
                    assert(np[i] == old_perm[oi]);
                    assert(np[j] == old_perm[oj]);
                } else if i == pos as int {
                    let oj = if j < pos { j } else { j - 1 };
                    assert(np[j] == old_perm[oj]);
                } else {
                    let oi = if i < pos { i } else { i - 1 };
                    assert(np[i] == old_perm[oi]);
                }
            }
            assert forall|i: int, j: int| 0 <= i < j < np.len() implies !keys_before(keys@, #[trigger] np[j], #[trigger] np[i]) by {
                let oi = if i < pos { i } else { i - 1 };
                let oj = if j < pos { j } else { j - 1 };
                if i == pos as int {
                    assert(np[j] == old_perm[oj]);
                } else if j == pos as int {
                    assert(np[i] == old_perm[oi]);
                    let a = np[i];
                    lemma_key_before_laws(keys@[a as int].0, keys@[a as int].1@, keys@[x as int].0, keys@[x as int].1@);
                } else {
                    assert(np[i] == old_perm[oi]);
                    assert(np[j] == old_perm[oj]);
                }
            }
            assert forall|i: int, j: int|
                0 <= i < j < np.len() && !keys_before(keys@, np[i], np[j]) implies #[trigger] np[i] < #[trigger] np[j] by {
                let oi = if i < pos { i } else { i - 1 };
                let oj = if j < pos { j } else { j - 1 };
                if i == pos as int {
                    assert(np[j] == old_perm[oj]);
                } else if j == pos as int {
                    assert(np[i] == old_perm[oi]);
                } else {
                    assert(np[i] == old_perm[oi]);
                    assert(np[j] == old_perm[oj]);
                }
            }
        }
        next = x;
    }
    perm
}

/// The entries of `v` in listing order: directories first, then by lower-cased
/// name; entries with equal keys keep their order in `v`.
pub fn sorted_for_listing<T: ListedEntry>(v: &Vec<T>) -> (r: Vec<T>)
    ensures
        exists|perm: Seq<usize>| #[trigger] stable_sorted_by(r@, v@, perm),
{
    let mut keys: Vec<(bool, Vec<char>)> = Vec::new();
    let mut i: usize = 0;
    while i < v.len()
        invariant
            i <= v.len(),
            keys@.len() == i,
            forall|k: int| 0 <= k < i ==> (#[trigger] keys@[k]).0 == v@[k].listed_is_dir() && keys@[k].1@ == lowercase(v@[k].listed_name()),
        decreases v.len() - i,
    {
        let low = lowercase_chars(v[i].name_str());
        keys.push((v[i].is_dir_flag(), low));
        i = i + 1;
    }
    let perm = sort_permutation(&keys);
    let mut r: Vec<T> = Vec::new();
    let mut k: usize = 0;
    while k < perm.len()
        invariant
            k <= perm@.len(),
            is_rearrangement(perm@, v@.len()),
            r@.len() == k,
            forall|q: int| 0 <= q < k ==> #[trigger] r@[q] == v@[perm@[q] as int],
        decreases perm@.len() - k,
    {
        r.push(v[perm[k]].duplicate());
        k = k + 1;
    }
    assert forall|i: int, j: int| 0 <= i < j < r@.len() implies !entry_before(#[trigger] r@[j], #[trigger] r@[i]) by {
        assert(!keys_before(keys@, perm@[j], perm@[i]));
    }
    assert forall|a: int, b: int| 0 <= a < b < r@.len() && !entry_before(r@[a], r@[b]) implies #[trigger] perm@[a] < #[trigger] perm@[b] by {
        assert(!keys_before(keys@, perm@[a], perm@[b]));
    }
    assert(stable_sorted_by(r@, v@, perm@));
    r
}

/// In a sorted listing all directories come before all files, and entries of the
/// same kind come in order of their lower-cased names (by `chars_before`).
pub proof fn lemma_sorted_listing_order<T: ListedEntry>(r: Seq<T>)
    requires
        listing_sorted(r),
    ensures
        forall|i: int, j: int|
            0 <= i < j < r.len() && (#[trigger] r[j]).listed_is_dir() ==> (#[trigger] r[i]).listed_is_dir(),
        forall|i: int, j: int|
            0 <= i < j < r.len() && (#[trigger] r[i]).listed_is_dir() == (#[trigger] r[j]).listed_is_dir() ==> !chars_before(
                lowercase(r[j].listed_name()),
                lowercase(r[i].listed_name()),
            ),
{
    assert forall|i: int, j: int|
        0 <= i < j < r.len() && (#[trigger] r[j]).listed_is_dir() implies (#[trigger] r[i]).listed_is_dir() by {
        assert(!entry_before(r[j], r[i]));
    }
    assert forall|i: int, j: int|
        0 <= i < j < r.len() && (#[trigger] r[i]).listed_is_dir() == (#[trigger] r[j]).listed_is_dir() implies !chars_before(
            lowercase(r[j].listed_name()),
            lowercase(r[i].listed_name()),
        ) by {
        assert(!entry_before(r[j], r[i]));
    }
}

/// Entry `a` of `v` comes before entry `b` in listing order, entries with equal
/// keys ordered by their position in `v`.
pub open spec fn ranks_before<T: ListedEntry>(v: Seq<T>, a: int, b: int) -> bool {
    entry_before(v[a], v[b]) || (!entry_before(v[b], v[a]) && a < b)
}

/// Each element of `s` comes before every later one under `before`.
pub open spec fn increasing_by(s: Seq<int>, before: spec_fn(int, int) -> bool) -> bool {
    forall|k: int, l: int| 0 <= k < l < s.len() ==> before(#[trigger] s[k], #[trigger] s[l])
}

/// Two entries never come before each other.
pub proof fn lemma_ranks_asymmetric<T: ListedEntry>(v: Seq<T>, a: int, b: int)
    ensures
        !(ranks_before(v, a, b) && ranks_before(v, b, a)),
{
    lemma_key_before_laws(
        v[a].listed_is_dir(),
        lowercase(v[a].listed_name()),
        v[b].listed_is_dir(),
        lowercase(v[b].listed_name()),
    );
}

/// A stable listing sort takes the entries of `v` in increasing `ranks_before` order.
pub proof fn lemma_stable_ranks<T: ListedEntry>(r: Seq<T>, v: Seq<T>, perm: Seq<usize>)
    requires
        stable_sorted_by(r, v, perm),
    ensures
        forall|k: int, l: int| 0 <= k < l < r.len() ==> ranks_before(v, #[trigger] perm[k] as int, #[trigger] perm[l] as int),
{
    assert forall|k: int, l: int| 0 <= k < l < r.len() implies ranks_before(v, #[trigger] perm[k] as int, #[trigger] perm[l] as int) by {
        assert(r[k] == v[perm[k] as int]);
        assert(r[l] == v[perm[l] as int]);
        assert(!entry_before(r[l], r[k]));
    }
}

/// Index `i` occurs in `perm`.
pub open spec fn index_taken(perm: Seq<usize>, i: int) -> bool {
    exists|k: int| 0 <= k < perm.len() && perm[k] as int == i
}

/// Every index below `n` occurs in a rearrangement of `0..n`.
pub proof fn lemma_rearrangement_onto(perm: Seq<usize>, n: nat)
    requires
        is_rearrangement(perm, n),
    ensures
        forall|i: int| 0 <= i < n ==> #[trigger] index_taken(perm, i),
{
    let f = |u: usize| u as int;
    let pi = perm.map_values(f);
    assert(vstd::relations::injective(f));
    perm.lemma_no_duplicates_injective(f);
    pi.unique_seq_to_set();
    vstd::set_lib::lemma_int_range(0, n as int);
    let range = vstd::set_lib::set_int_range(0, n as int);
    assert(pi.to_set().subset_of(range)) by {
        assert forall|x: int| pi.to_set().contains(x) implies range.contains(x) by {
            assert(pi.contains(x));
            let k = choose|k: int| 0 <= k < pi.len() && pi[k] == x;
            assert(pi[k] == perm[k] as int);
        }
    }
    vstd::seq_lib::seq_to_set_is_finite(pi);
    vstd::set_lib::lemma_subset_equality(pi.to_set(), range);
    assert forall|i: int| 0 <= i < n implies #[trigger] index_taken(perm, i) by {
        assert(range.contains(i));
        assert(pi.to_set().contains(i));
        assert(pi.contains(i));
        let k = choose|k: int| 0 <= k < pi.len() && pi[k] == i;
        assert(perm[k] as int == pi[k]);
    }
}

/// Keeping some elements of an increasing sequence leaves it increasing.
pub proof fn lemma_filter_increasing(s: Seq<int>, p: spec_fn(int) -> bool, before: spec_fn(int, int) -> bool)
    requires
        increasing_by(s, before),
    ensures
        increasing_by(s.filter(p), before),
    decreases s.len(),
{
    if s.len() > 0 {
        let t = s.drop_last();
        assert(increasing_by(t, before)) by {
            assert forall|k: int, l: int| 0 <= k < l < t.len() implies before(#[trigger] t[k], #[trigger] t[l]) by {
                assert(t[k] == s[k] && t[l] == s[l]);
            }
        }
        lemma_filter_increasing(t, p, before);
        reveal(Seq::filter);
        let ft = t.filter(p);
        let f = s.filter(p);
        assert(s.drop_last() == t);
        if p(s.last()) {
            assert(f == ft.push(s.last()));
            assert forall|k: int, l: int| 0 <= k < l < f.len() implies before(#[trigger] f[k], #[trigger] f[l]) by {
                if l < ft.len() {
                    assert(f[k] == ft[k] && f[l] == ft[l]);
                } else {
                    assert(f[k] == ft[k]);
                    assert(ft.contains(ft[k]));
                    t.lemma_filter_contains_rev(p, ft[k]);
                    let j = choose|j: int| 0 <= j < t.len() && t[j] == ft[k];
                    assert(s[j] == ft[k]);
                    assert(f[l] == s[s.len() - 1]);
                }
            }
        } else {
            assert(f == ft);
        }
    }
}

/// Mapping and then keeping some elements is keeping the elements whose images
/// are kept and then mapping.
pub proof fn lemma_filter_map<A, B>(s: Seq<A>, f: spec_fn(A) -> B, p: spec_fn(B) -> bool, q: spec_fn(A) -> bool)
    requires
        forall|a: A| #[trigger] q(a) == p(f(a)),
    ensures
        s.map_values(f).filter(p) == s.filter(q).map_values(f),
    decreases s.len(),
{
    if s.len() > 0 {
        let t = s.drop_last();
        lemma_filter_map(t, f, p, q);
        reveal(Seq::filter);
        assert(s.map_values(f).drop_last() =~= t.map_values(f));
        assert(s.map_values(f).last() == f(s.last()));
        if q(s.last()) {
            assert(s.filter(q) == t.filter(q).push(s.last()));
            assert(s.filter(q).map_values(f) =~= t.filter(q).map_values(f).push(f(s.last())));
        } else {
            assert(s.filter(q) == t.filter(q));
        }
    } else {
        reveal(Seq::filter);
        assert(s.map_values(f).filter(p) =~= Seq::empty());
        assert(s.filter(q).map_values(f) =~= Seq::empty());
    }
}

proof fn lemma_increasing_prefix(a: Seq<int>, b: Seq<int>, before: spec_fn(int, int) -> bool, j: int)
    requires
        forall|x: int, y: int| !(#[trigger] before(x, y) && before(y, x)),
        increasing_by(a, before),
        increasing_by(b, before),
        forall|x: int| a.contains(x) <==> b.contains(x),
        0 <= j <= a.len(),
        j <= b.len(),
    ensures
        forall|i: int| 0 <= i < j ==> a[i] == b[i],
    decreases j,
{
    if j > 0 {
        lemma_increasing_prefix(a, b, before, j - 1);
        let i = j - 1;
        let x = a[i];
        let y = b[i];
        if x != y {
            assert(a.contains(x));
            let m = choose|m: int| 0 <= m < b.len() && b[m] == x;
            assert(b.contains(y));
            let l = choose|l: int| 0 <= l < a.len() && a[l] == y;
            if m < i {
                assert(a[m] == b[m]);
                assert(before(a[m], a[i]));
            } else if l < i {
                assert(a[l] == b[l]);
                assert(before(b[l], b[i]));
            } else {
                assert(m > i && l > i);
                assert(before(b[i], b[m]));
                assert(before(a[i], a[l]));
            }
        }
    }
}

/// Two sequences that hold the same elements, each in increasing order under an
/// order in which no two elements come before each other, are equal.
pub proof fn lemma_increasing_unique(a: Seq<int>, b: Seq<int>, before: spec_fn(int, int) -> bool)
    requires
        forall|x: int, y: int| !(#[trigger] before(x, y) && before(y, x)),
        increasing_by(a, before),
        increasing_by(b, before),
        forall|x: int| a.contains(x) <==> b.contains(x),
    ensures
        a == b,
{
    let m = if a.len() <= b.len() { a.len() as int } else { b.len() as int };
    lemma_increasing_prefix(a, b, before, m);
    if a.len() < b.len() {
        let x = b[m];
        assert(b.contains(x));
        let k = choose|k: int| 0 <= k < a.len() && a[k] == x;
        assert(b[k] == x);
        assert(before(b[k], b[m]));
    } else if b.len() < a.len() {
        let x = a[m];
        assert(a.contains(x));
        let k = choose|k: int| 0 <= k < b.len() && b[k] == x;
        assert(a[k] == x);
        assert(before(a[k], a[m]));
    }
    assert(a =~= b);
}

} // verus!
