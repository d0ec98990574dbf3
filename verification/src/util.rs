//! Orderings of directory entries and the choice of entries an operation acts on.

use std::cmp::Ordering;
use std::collections::HashSet;
use vstd::prelude::*;
use crate::text::{chars_before, chars_less, lowercase, lowercase_chars};

verus! {

broadcast use vstd::std_specs::hash::group_hash_axioms;

/// Order of two names compared character by character (see `chars_before`).
pub open spec fn name_order(a: Seq<char>, b: Seq<char>) -> Ordering {
    if chars_before(a, b) {
        Ordering::Less
    } else if chars_before(b, a) {
        Ordering::Greater
    } else {
        Ordering::Equal
    }
}

/// The opposite answer of an ordering.
pub open spec fn flipped(o: Ordering) -> Ordering {
    match o {
        Ordering::Less => Ordering::Greater,
        Ordering::Equal => Ordering::Equal,
        Ordering::Greater => Ordering::Less,
    }
}

/// Directories before files; within each group, names ordered case-insensitively.
pub open spec fn dir_first_order(
    a_is_dir: bool,
    a_name: Seq<char>,
    b_is_dir: bool,
    b_name: Seq<char>,
) -> Ordering {
    if a_is_dir && !b_is_dir {
        Ordering::Less
    } else if !a_is_dir && b_is_dir {
        Ordering::Greater
    } else {
        name_order(lowercase(a_name), lowercase(b_name))
    }
}

/// Names ordered case-insensitively, directories and files interleaved.
pub open spec fn name_mixed_order(a_name: Seq<char>, b_name: Seq<char>) -> Ordering {
    name_order(lowercase(a_name), lowercase(b_name))
}

/// Larger sizes first; equal sizes ordered case-insensitively by name.
pub open spec fn size_desc_order(a_size: u64, a_name: Seq<char>, b_size: u64, b_name: Seq<char>) -> Ordering {
    if b_size < a_size {
        Ordering::Less
    } else if a_size < b_size {
        Ordering::Greater
    } else {
        name_order(lowercase(a_name), lowercase(b_name))
    }
}

fn order_of_names(a: &str, b: &str) -> (o: Ordering)
    ensures
        o == name_order(lowercase(a@), lowercase(b@)),
{
    let la = lowercase_chars(a);
    let lb = lowercase_chars(b);
    if chars_less(&la, &lb) {
        Ordering::Less
    } else if chars_less(&lb, &la) {
        Ordering::Greater
    } else {
        Ordering::Equal
    }
}

/// Compares two entries for a listing: directories first, then by lower-cased name.
pub fn sort_dir_first(a_is_dir: bool, a_name: &str, b_is_dir: bool, b_name: &str) -> (o: Ordering)
    ensures
        o == dir_first_order(a_is_dir, a_name@, b_is_dir, b_name@),
{
    if a_is_dir && !b_is_dir {
        Ordering::Less
    } else if !a_is_dir && b_is_dir {
        Ordering::Greater
    } else {
        order_of_names(a_name, b_name)
    }
}

/// Pure alphabetical — dirs and files interleaved.
pub fn sort_name_mixed(a_name: &str, b_name: &str) -> (o: Ordering)
    ensures
        o == name_mixed_order(a_name@, b_name@),
{
    order_of_names(a_name, b_name)
}

/// Largest size first; entries with equal size fall back to name.
pub fn sort_size_desc(a_size: u64, a_name: &str, b_size: u64, b_name: &str) -> (o: Ordering)
    ensures
        o == size_desc_order(a_size, a_name@, b_size, b_name@),
{
    if b_size < a_size {
        Ordering::Less
    } else if a_size < b_size {
        Ordering::Greater
    } else {
        order_of_names(a_name, b_name)
    }
}

/// Comparing names is a total order on their character sequences: swapping the
/// arguments flips the answer, and `Equal` means the sequences are the same.
pub proof fn lemma_name_order_laws(a: Seq<char>, b: Seq<char>)
    ensures
        name_order(a, b) == flipped(name_order(b, a)),
        name_order(a, b) == Ordering::Equal <==> a == b,
{
    crate::text::lemma_chars_before_asymmetric(a, b);
    crate::text::lemma_chars_before_total(a, b);
    crate::text::lemma_chars_before_irreflexive(a);
}

/// Name order is transitive.
pub proof fn lemma_name_order_transitive(a: Seq<char>, b: Seq<char>, c: Seq<char>)
    requires
        name_order(a, b) != Ordering::Greater,
        name_order(b, c) != Ordering::Greater,
    ensures
        name_order(a, c) != Ordering::Greater,
        name_order(a, b) == Ordering::Less || name_order(b, c) == Ordering::Less ==> name_order(a, c) == Ordering::Less,
{
    lemma_name_order_laws(a, b);
    lemma_name_order_laws(b, c);
    lemma_name_order_laws(a, c);
    if chars_before(a, b) && chars_before(b, c) {
        crate::text::lemma_chars_before_transitive(a, b, c);
    }
    if chars_before(c, a) && chars_before(a, b) {
        crate::text::lemma_chars_before_transitive(c, a, b);
    }
    if chars_before(b, c) && chars_before(c, a) {
        crate::text::lemma_chars_before_transitive(b, c, a);
    }
}

/// The listing order is antisymmetric: comparing the other way round gives the
/// flipped answer, and an entry compares `Equal` to itself.
pub proof fn lemma_dir_first_antisymmetric(a_is_dir: bool, a_name: Seq<char>, b_is_dir: bool, b_name: Seq<char>)
    ensures
        dir_first_order(a_is_dir, a_name, b_is_dir, b_name) == flipped(
            dir_first_order(b_is_dir, b_name, a_is_dir, a_name),
        ),
        dir_first_order(a_is_dir, a_name, a_is_dir, a_name) == Ordering::Equal,
{
    lemma_name_order_laws(lowercase(a_name), lowercase(b_name));
    lemma_name_order_laws(lowercase(a_name), lowercase(a_name));
}

/// The listing order is transitive, strictly so when either step is strict.
pub proof fn lemma_dir_first_transitive(
    a_is_dir: bool,
    a_name: Seq<char>,
    b_is_dir: bool,
    b_name: Seq<char>,
    c_is_dir: bool,
    c_name: Seq<char>,
)
    requires
        dir_first_order(a_is_dir, a_name, b_is_dir, b_name) != Ordering::Greater,
        dir_first_order(b_is_dir, b_name, c_is_dir, c_name) != Ordering::Greater,
    ensures
        dir_first_order(a_is_dir, a_name, c_is_dir, c_name) != Ordering::Greater,
        dir_first_order(a_is_dir, a_name, b_is_dir, b_name) == Ordering::Less
            || dir_first_order(b_is_dir, b_name, c_is_dir, c_name) == Ordering::Less
            ==> dir_first_order(a_is_dir, a_name, c_is_dir, c_name) == Ordering::Less,
{
    if a_is_dir == b_is_dir && b_is_dir == c_is_dir {
        lemma_name_order_transitive(lowercase(a_name), lowercase(b_name), lowercase(c_name));
    }
}

/// Every directory comes before every file.
pub proof fn lemma_dirs_before_files(dir_name: Seq<char>, file_name: Seq<char>)
    ensures
        dir_first_order(true, dir_name, false, file_name) == Ordering::Less,
{
}

/// The size order is antisymmetric and transitive.
pub proof fn lemma_size_desc_laws(
    a_size: u64,
    a_name: Seq<char>,
    b_size: u64,
    b_name: Seq<char>,
    c_size: u64,
    c_name: Seq<char>,
)
    ensures
        size_desc_order(a_size, a_name, b_size, b_name) == flipped(
            size_desc_order(b_size, b_name, a_size, a_name),
        ),
        size_desc_order(a_size, a_name, b_size, b_name) != Ordering::Greater
            && size_desc_order(b_size, b_name, c_size, c_name) != Ordering::Greater
            ==> size_desc_order(a_size, a_name, c_size, c_name) != Ordering::Greater,
{
    lemma_name_order_laws(lowercase(a_name), lowercase(b_name));
    if a_size == b_size && b_size == c_size && name_order(lowercase(a_name), lowercase(b_name))
        != Ordering::Greater && name_order(lowercase(b_name), lowercase(c_name))
        != Ordering::Greater {
        lemma_name_order_transitive(lowercase(a_name), lowercase(b_name), lowercase(c_name));
    }
}

/// The name order is antisymmetric and transitive.
pub proof fn lemma_name_mixed_laws(a_name: Seq<char>, b_name: Seq<char>, c_name: Seq<char>)
    ensures
        name_mixed_order(a_name, b_name) == flipped(name_mixed_order(b_name, a_name)),
        name_mixed_order(a_name, b_name) != Ordering::Greater && name_mixed_order(b_name, c_name)
            != Ordering::Greater ==> name_mixed_order(a_name, c_name) != Ordering::Greater,
{
    lemma_name_order_laws(lowercase(a_name), lowercase(b_name));
    if name_mixed_order(a_name, b_name) != Ordering::Greater && name_mixed_order(b_name, c_name)
        != Ordering::Greater {
        lemma_name_order_transitive(lowercase(a_name), lowercase(b_name), lowercase(c_name));
    }
}


/// `ix` lists increasing indices.
pub open spec fn increasing(ix: Seq<usize>) -> bool {
    forall|i: int, j: int| 0 <= i < j < ix.len() ==> ix[i] < ix[j]
}

/// The members of `selected` that index into a list of `n` entries.
pub open spec fn selected_in_range(selected: Set<usize>, n: nat) -> Set<usize> {
    selected.filter(|i: usize| (i as nat) < n)
}

fn sorted_indices(v: Vec<usize>) -> (r: Vec<usize>)
    ensures
        r@.to_multiset() == v@.to_multiset(),
        forall|i: int, j: int| 0 <= i < j < r@.len() ==> r@[i] <= r@[j],
{
    broadcast use vstd::seq_lib::group_to_multiset_ensures;

    let mut r: Vec<usize> = Vec::new();
    let mut k: usize = 0;
    assert(r@ =~= v@.take(0));
    while k < v.len()
        invariant
            k <= v.len(),
            r@.to_multiset() == v@.take(k as int).to_multiset(),
            forall|i: int, j: int| 0 <= i < j < r@.len() ==> r@[i] <= r@[j],
        decreases v.len() - k,
    {
        let x = v[k];
        let mut pos: usize = 0;
        while pos < r.len() && r[pos] <= x
            invariant
                pos <= r.len(),
                forall|i: int| 0 <= i < pos ==> r@[i] <= x,
            decreases r.len() - pos,
        {
            pos = pos + 1;
        }
        proof {
            vstd::seq_lib::to_multiset_insert(r@, pos as int, x);
            assert(v@.take(k as int + 1) =~= v@.take(k as int).push(x));
            vstd::seq_lib::to_multiset_build(v@.take(k as int), x);
        }
        r.insert(pos, x);
        k = k + 1;
    }
    assert(v@.take(v.len() as int) =~= v@);
    r
}

/// The members of a set of indices in increasing order.
pub fn increasing_members(selected: &HashSet<usize>) -> (r: Vec<usize>)
    ensures
        increasing(r@),
        r@.to_set() == selected@,
{
    broadcast use vstd::seq_lib::group_to_multiset_ensures;

    let mut keys: Vec<usize> = Vec::new();
    for k in it: selected.iter()
        invariant
            it.seq() == vstd::std_specs::iter::IteratorSpec::remaining(&vstd::std_specs::hash::spec_hash_keys_iter(selected)),
            keys@ == it.seq().unref().take(it.index()),
    {
        assert(it.seq().unref().take(it.index() + 1) =~= it.seq().unref().take(it.index()).push(*k));
        keys.push(*k);
    }
    let ghost seen = keys@;
    proof {
        let all = vstd::std_specs::iter::IteratorSpec::remaining(&vstd::std_specs::hash::spec_hash_keys_iter(selected));
        assert(all.unref().take(all.len() as int) =~= all.unref());
        assert(seen =~= all.unref());
        assert(seen.no_duplicates()) by {
            assert forall|i: int, j: int| 0 <= i < seen.len() && 0 <= j < seen.len() && i != j implies seen[i] != seen[j] by {
                assert(all[i] != all[j]);
            }
        }
        assert(seen.to_set() =~= selected@);
    }
    let r = sorted_indices(keys);
    proof {
        seen.lemma_multiset_has_no_duplicates();
        r@.lemma_multiset_has_no_duplicates_conv();
        assert forall|x: usize| r@.to_set().contains(x) <==> selected@.contains(x) by {
            assert(r@.contains(x) <==> r@.to_multiset().count(x) > 0);
            assert(seen.contains(x) <==> seen.to_multiset().count(x) > 0);
        }
        assert(r@.to_set() =~= selected@);
    }
    r
}

/// `r` holds the entries an operation acts on: those of `entries` whose indices
/// are in `selected`, in increasing index order, or, when nothing is selected,
/// the entry under the cursor if there is one.
pub open spec fn picked<T>(r: Seq<T>, entries: Seq<T>, cursor: usize, selected: Set<usize>) -> bool {
    &&& selected.is_empty() ==> if (cursor as int) < entries.len() {
        r.len() == 1 && r[0] == entries[cursor as int]
    } else {
        r.len() == 0
    }
    &&& !selected.is_empty() ==> exists|ix: Seq<usize>|
        #![trigger ix.to_set()]
        {
            &&& increasing(ix)
            &&& ix.to_set() == selected_in_range(selected, entries.len())
            &&& ix.len() == r.len()
            &&& forall|k: int| 0 <= k < ix.len() ==> r[k] == entries[ix[k] as int]
        }
}

/// The entries that an operation acts on: those whose indices are selected, in
/// index order, or, when nothing is selected, the entry under the cursor.
pub fn selected_entries<'a, T>(entries: &'a [T], cursor: usize, selected: &HashSet<usize>) -> (r: Vec<&'a T>)
    ensures
        picked(r@.unref(), entries@, cursor, selected@),
{
    let mut r: Vec<&'a T> = Vec::new();
    if selected.is_empty() {
        if cursor < entries.len() {
            r.push(&entries[cursor]);
        }
        assert(r@.unref().len() == r@.len());
        return r;
    }
    let members = increasing_members(selected);
    let ghost mut ix: Seq<usize> = Seq::empty();
    let mut k: usize = 0;
    while k < members.len()
        invariant
            k <= members.len(),
            increasing(members@),
            members@.to_set() == selected@,
            increasing(ix),
            ix.len() == r@.len(),
            forall|q: int| 0 <= q < ix.len() ==> *r@[q] == entries@[ix[q] as int],
            forall|q: int| 0 <= q < ix.len() ==> (ix[q] as int) < entries@.len(),
            ix.to_set() == selected_in_range(members@.take(k as int).to_set(), entries@.len()),
            forall|q: int| 0 <= q < ix.len() ==> exists|p: int| 0 <= p < k && members@[p] == #[trigger] ix[q],
        decreases members.len() - k,
    {
        let i = members[k];
        let ghost before = members@.take(k as int).to_set();
        assert(members@.take(k as int + 1) =~= members@.take(k as int).push(i));
        proof {
            members@.take(k as int).lemma_push_to_set_commute(i);
        }
        if i < entries.len() {
            assert forall|q: int| 0 <= q < ix.len() implies ix[q] < i by {
                let p = choose|p: int| 0 <= p < k && members@[p] == ix[q];
            }
            r.push(&entries[i]);
            proof {
                ix.lemma_push_to_set_commute(i);
                assert(selected_in_range(before.insert(i), entries@.len()) =~= selected_in_range(before, entries@.len()).insert(i));
                ix = ix.push(i);
            }
        } else {
            assert(selected_in_range(before.insert(i), entries@.len()) =~= selected_in_range(before, entries@.len()));
        }
        k = k + 1;
    }
    assert(members@.take(members@.len() as int) =~= members@);
    assert(r@.unref().len() == ix.len());
    r
}


/// Sorting strictly before in a listing is exactly comparing `Less` by `sort_dir_first`.
pub proof fn lemma_key_before_is_dir_first_less(a_is_dir: bool, a_name: Seq<char>, b_is_dir: bool, b_name: Seq<char>)
    ensures
        crate::listing::key_before(a_is_dir, lowercase(a_name), b_is_dir, lowercase(b_name))
            <==> dir_first_order(a_is_dir, a_name, b_is_dir, b_name) == Ordering::Less,
{
    lemma_name_order_laws(lowercase(a_name), lowercase(b_name));
}

/// A sorted listing is in `sort_dir_first` order: no entry compares `Greater`
/// than an entry after it.
pub proof fn lemma_listing_in_dir_first_order<T: crate::listing::ListedEntry>(s: Seq<T>, i: int, j: int)
    requires
        crate::listing::listing_sorted(s),
        0 <= i < j < s.len(),
    ensures
        dir_first_order(s[i].listed_is_dir(), s[i].listed_name(), s[j].listed_is_dir(), s[j].listed_name())
            != Ordering::Greater,
{
    lemma_key_before_is_dir_first_less(s[j].listed_is_dir(), s[j].listed_name(), s[i].listed_is_dir(), s[i].listed_name());
    lemma_dir_first_antisymmetric(s[i].listed_is_dir(), s[i].listed_name(), s[j].listed_is_dir(), s[j].listed_name());
}

} // verus!
