//! The order of principals, and the listing of a map in that order.

use vstd::prelude::*;

verus! {

/// `a` and `b` agree before position `i` and differ there.
pub open spec fn differ_first_at(a: Seq<u8>, b: Seq<u8>, i: int) -> bool {
    &&& 0 <= i < a.len()
    &&& i < b.len()
    &&& a[i] != b[i]
    &&& forall|j: int| 0 <= j < i ==> a[j] == b[j]
}

/// The order of principals: the shorter one first, and of two of one length
/// the one with the smaller byte where they first differ.
pub open spec fn principal_lt(a: Seq<u8>, b: Seq<u8>) -> bool {
    ||| a.len() < b.len()
    ||| a.len() == b.len() && exists|i: int| #[trigger] differ_first_at(a, b, i) && a[i] < b[i]
}

/// `listing` holds each entry of `entries` once, in the order of principals.
pub open spec fn is_sorted_listing<V>(entries: Map<Seq<u8>, V>, listing: Seq<(Seq<u8>, V)>) -> bool {
    &&& forall|i: int|
        0 <= i < listing.len() ==> entries.contains_key((#[trigger] listing[i]).0)
            && entries[listing[i].0] == listing[i].1
    &&& forall|k: Seq<u8>| #[trigger]
        entries.contains_key(k) ==> exists|i: int| 0 <= i < listing.len() && (#[trigger] listing[i]).0 == k
    &&& forall|i: int, j: int|
        0 <= i < j < listing.len() ==> principal_lt((#[trigger] listing[i]).0, (#[trigger] listing[j]).0)
}

/// The listing of `entries` in the order of principals. It is the only one
/// where there is any: see [`lemma_sorted_listing_is_unique`].
pub open spec fn sorted_listing<V>(entries: Map<Seq<u8>, V>) -> Seq<(Seq<u8>, V)> {
    choose|listing: Seq<(Seq<u8>, V)>| is_sorted_listing(entries, listing)
}

/// No principal comes before itself, and of two principals at most one comes
/// before the other.
pub proof fn lemma_principal_lt_is_strict(a: Seq<u8>, b: Seq<u8>)
    ensures
        !principal_lt(a, a),
        !(principal_lt(a, b) && principal_lt(b, a)),
{
    if principal_lt(a, b) && principal_lt(b, a) {
        let i = choose|i: int| #[trigger] differ_first_at(a, b, i) && a[i] < b[i];
        let j = choose|j: int| #[trigger] differ_first_at(b, a, j) && b[j] < a[j];
        assert(i == j);
    }
}

/// Two sorted listings of one map agree on their first `n` entries.
proof fn lemma_sorted_listings_agree<V>(
    entries: Map<Seq<u8>, V>,
    first: Seq<(Seq<u8>, V)>,
    second: Seq<(Seq<u8>, V)>,
    n: int,
)
    requires
        is_sorted_listing(entries, first),
        is_sorted_listing(entries, second),
        0 <= n <= first.len(),
        n <= second.len(),
    ensures
        forall|i: int| 0 <= i < n ==> first[i] == second[i],
    decreases n,
{
    if n > 0 {
        lemma_sorted_listings_agree(entries, first, second, n - 1);
        let i = n - 1;
        let k1 = first[i].0;
        let k2 = second[i].0;
        assert(entries.contains_key(k1));
        assert(entries.contains_key(k2));
        let j2 = choose|j: int| 0 <= j < second.len() && (#[trigger] second[j]).0 == k1;
        let j1 = choose|j: int| 0 <= j < first.len() && (#[trigger] first[j]).0 == k2;
        lemma_principal_lt_is_strict(k1, k2);
        lemma_principal_lt_is_strict(k2, k2);
        if j2 < i {
            assert(first[j2] == second[j2]);
            assert(principal_lt(first[j2].0, first[i].0));
        } else if j2 > i {
            assert(principal_lt(second[i].0, second[j2].0));
            if j1 < i {
                assert(first[j1] == second[j1]);
                assert(principal_lt(second[j1].0, second[i].0));
            } else if j1 > i {
                assert(principal_lt(first[i].0, first[j1].0));
            }
        }
        assert(k1 == k2);
        assert(first[i].1 == entries[k1]);
        assert(second[i].1 == entries[k2]);
    }
}

/// Two sorted listings of one map are the same listing.
proof fn lemma_sorted_listings_are_equal<V>(
    entries: Map<Seq<u8>, V>,
    first: Seq<(Seq<u8>, V)>,
    second: Seq<(Seq<u8>, V)>,
)
    requires
        is_sorted_listing(entries, first),
        is_sorted_listing(entries, second),
    ensures
        first == second,
{
    let n = if first.len() <= second.len() {
        first.len() as int
    } else {
        second.len() as int
    };
    lemma_sorted_listings_agree(entries, first, second, n);
    if first.len() < second.len() {
        let k = second[n].0;
        assert(entries.contains_key(k));
        let j = choose|j: int| 0 <= j < first.len() && (#[trigger] first[j]).0 == k;
        assert(first[j] == second[j]);
        assert(principal_lt(second[j].0, second[n].0));
        lemma_principal_lt_is_strict(k, k);
    } else if second.len() < first.len() {
        let k = first[n].0;
        assert(entries.contains_key(k));
        let j = choose|j: int| 0 <= j < second.len() && (#[trigger] second[j]).0 == k;
        assert(first[j] == second[j]);
        assert(principal_lt(first[j].0, first[n].0));
        lemma_principal_lt_is_strict(k, k);
    }
    assert(first =~= second);
}

/// A map has at most one listing in the order of principals, and
/// [`sorted_listing`] is that one.
pub proof fn lemma_sorted_listing_is_unique<V>(
    entries: Map<Seq<u8>, V>,
    first: Seq<(Seq<u8>, V)>,
    second: Seq<(Seq<u8>, V)>,
)
    requires
        is_sorted_listing(entries, first),
        is_sorted_listing(entries, second),
    ensures
        first == second,
        first == sorted_listing(entries),
{
    lemma_sorted_listings_are_equal(entries, first, second);
    lemma_sorted_listings_are_equal(entries, first, sorted_listing(entries));
}

/// The principals of the first `n` entries of a listing.
pub open spec fn listed_keys<V>(listing: Seq<(Seq<u8>, V)>, n: int) -> Set<Seq<u8>> {
    Set::new(|k: Seq<u8>| exists|i: int| 0 <= i < n && (#[trigger] listing[i]).0 == k)
}

/// The first `n` entries of a sorted listing have `n` different principals.
proof fn lemma_listed_keys_len<V>(entries: Map<Seq<u8>, V>, listing: Seq<(Seq<u8>, V)>, n: int)
    requires
        is_sorted_listing(entries, listing),
        0 <= n <= listing.len(),
    ensures
        listed_keys(listing, n).finite(),
        listed_keys(listing, n).len() == n,
    decreases n,
{
    if n == 0 {
        assert(listed_keys(listing, 0) =~= Set::<Seq<u8>>::empty());
    } else {
        lemma_listed_keys_len(entries, listing, n - 1);
        let key = listing[n - 1].0;
        let before = listed_keys(listing, n - 1);
        if before.contains(key) {
            let i = choose|i: int| 0 <= i < n - 1 && (#[trigger] listing[i]).0 == key;
            assert(principal_lt(listing[i].0, listing[n - 1].0));
            lemma_principal_lt_is_strict(key, key);
        }
        assert(listed_keys(listing, n) =~= before.insert(key));
    }
}

/// A map that has a sorted listing has finitely many entries, as many as the
/// listing is long.
pub proof fn lemma_sorted_listing_len<V>(entries: Map<Seq<u8>, V>, listing: Seq<(Seq<u8>, V)>)
    requires
        is_sorted_listing(entries, listing),
    ensures
        entries.dom().finite(),
        entries.dom().len() == listing.len(),
{
    lemma_listed_keys_len(entries, listing, listing.len() as int);
    assert(listed_keys(listing, listing.len() as int) =~= entries.dom());
}

} // verus!
