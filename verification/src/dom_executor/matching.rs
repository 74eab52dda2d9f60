use vstd::prelude::*;
use vstd::std_specs::cmp::PartialEqSpec;

verus! {

/// How often `key` occurs among the first `until` keys.
pub open spec fn occurrences<K>(keys: Seq<K>, key: K, until: int) -> nat
    decreases until,
{
    if until <= 0 {
        0
    } else {
        occurrences(keys, key, until - 1) + if keys[until - 1] == key {
            1nat
        } else {
            0nat
        }
    }
}

/// The rank of the key at `at` among the keys equal to it: how many of them
/// stand before it.
pub open spec fn rank<K>(keys: Seq<K>, at: int) -> nat {
    occurrences(keys, keys[at], at)
}

/// Whether the old entry at `o` and the new entry at `n` belong together: they
/// have the same key, and the same rank among the entries with that key. So the
/// first new entry with some key goes with the first old entry with that key,
/// the second with the second, and so on.
pub open spec fn partners<K>(old_keys: Seq<K>, new_keys: Seq<K>, o: int, n: int) -> bool {
    &&& 0 <= o < old_keys.len()
    &&& 0 <= n < new_keys.len()
    &&& old_keys[o] == new_keys[n]
    &&& rank(old_keys, o) == rank(new_keys, n)
}

/// The old entry that belongs to the new entry at `n`, if there is one.
pub open spec fn partner<K>(old_keys: Seq<K>, new_keys: Seq<K>, n: int) -> Option<int> {
    if exists|o: int| partners(old_keys, new_keys, o, n) {
        Some(choose|o: int| partners(old_keys, new_keys, o, n))
    } else {
        None
    }
}

/// Whether some new entry belongs to the old entry at `o`.
pub open spec fn is_taken<K>(old_keys: Seq<K>, new_keys: Seq<K>, o: int) -> bool {
    exists|n: int| partners(old_keys, new_keys, o, n)
}

/// Counting further can only find more.
pub proof fn lemma_occurrences_grow<K>(keys: Seq<K>, key: K, from: int, until: int)
    requires
        from <= until,
    ensures
        occurrences(keys, key, from) <= occurrences(keys, key, until),
    decreases until - from,
{
    if from < until {
        lemma_occurrences_grow(keys, key, from, until - 1);
    }
}

/// Two entries with the same key at different places have different ranks.
pub proof fn lemma_rank_tells_apart<K>(keys: Seq<K>, a: int, b: int)
    requires
        0 <= a < b < keys.len(),
        keys[a] == keys[b],
    ensures
        rank(keys, a) < rank(keys, b),
{
    lemma_occurrences_grow(keys, keys[a], a + 1, b);
}

/// Among the first `until` keys, every count below the number of occurrences
/// of `key` is the rank of one of them.
pub proof fn lemma_rank_taken_for<K>(keys: Seq<K>, key: K, until: int, wanted: nat) -> (found: int)
    requires
        0 <= until <= keys.len(),
        wanted < occurrences(keys, key, until),
    ensures
        0 <= found < until,
        keys[found] == key,
        rank(keys, found) == wanted,
    decreases until,
{
    if keys[until - 1] == key && occurrences(keys, key, until - 1) == wanted {
        until - 1
    } else {
        lemma_rank_taken_for(keys, key, until - 1, wanted)
    }
}

/// At most one old entry belongs to a new entry, and at most one new entry to
/// an old one.
pub proof fn lemma_partners_unique<K>(old_keys: Seq<K>, new_keys: Seq<K>, o1: int, n1: int, o2: int, n2: int)
    requires
        partners(old_keys, new_keys, o1, n1),
        partners(old_keys, new_keys, o2, n2),
    ensures
        o1 == o2 <==> n1 == n2,
{
    if o1 == o2 && n1 != n2 {
        if n1 < n2 {
            lemma_rank_tells_apart(new_keys, n1, n2);
        } else {
            lemma_rank_tells_apart(new_keys, n2, n1);
        }
    }
    if n1 == n2 && o1 != o2 {
        if o1 < o2 {
            lemma_rank_tells_apart(old_keys, o1, o2);
        } else {
            lemma_rank_tells_apart(old_keys, o2, o1);
        }
    }
}

/// The partner of a new entry is the one old entry that belongs to it.
pub proof fn lemma_partner_is<K>(old_keys: Seq<K>, new_keys: Seq<K>, o: int, n: int)
    requires
        partners(old_keys, new_keys, o, n),
    ensures
        partner(old_keys, new_keys, n) == Some(o),
{
    let chosen = choose|o: int| partners(old_keys, new_keys, o, n);
    lemma_partners_unique(old_keys, new_keys, o, n, chosen, n);
}

/// Where the new keys are the old keys, in the same order, every entry is its
/// own partner.
pub proof fn lemma_same_keys_pair_in_place<K>(old_keys: Seq<K>, new_keys: Seq<K>, n: int)
    requires
        old_keys == new_keys,
        0 <= n < new_keys.len(),
    ensures
        partner(old_keys, new_keys, n) == Some(n),
{
    lemma_partner_is(old_keys, new_keys, n, n);
}

/// A key that occurs exactly once on each side pairs its two entries, wherever
/// they stand and whatever stands around them.
pub proof fn lemma_single_key_pairs<K>(old_keys: Seq<K>, new_keys: Seq<K>, o: int, n: int)
    requires
        0 <= o < old_keys.len(),
        0 <= n < new_keys.len(),
        old_keys[o] == new_keys[n],
        occurrences(old_keys, old_keys[o], old_keys.len() as int) == 1,
        occurrences(new_keys, new_keys[n], new_keys.len() as int) == 1,
    ensures
        partner(old_keys, new_keys, n) == Some(o),
{
    let key = old_keys[o];
    lemma_occurrences_grow(old_keys, key, o + 1, old_keys.len() as int);
    lemma_occurrences_grow(new_keys, key, n + 1, new_keys.len() as int);
    assert(occurrences(old_keys, key, o + 1) == occurrences(old_keys, key, o) + 1);
    assert(occurrences(new_keys, key, n + 1) == occurrences(new_keys, key, n) + 1);
    lemma_partner_is(old_keys, new_keys, o, n);
}

/// A place in a vector, as a place in its view.
pub open spec fn place(found: Option<usize>) -> Option<int> {
    match found {
        Some(at) => Some(at as int),
        None => None,
    }
}

/// The views of a list of keys.
pub open spec fn views_of<K: View>(keys: Seq<&K>) -> Seq<K::V> {
    keys.map_values(|key: &K| key@)
}

/// For each new key, in order, the place of the old key that belongs to it.
///
/// The first new key with some view takes the first old key with that view,
/// the second takes the second, and so on; a new key for which no old key is
/// left gets `None`. The type's `==` has to compare views.
pub fn pair_up<K: View + PartialEq>(old_keys: &Vec<&K>, new_keys: &Vec<&K>) -> (pairs: Vec<
    Option<usize>,
>)
    requires
        K::obeys_eq_spec(),
        forall|a: K, b: K| a.eq_spec(&b) <==> a@ == b@,
    ensures
        pairs@.len() == new_keys@.len(),
        forall|n: int|
            0 <= n < new_keys@.len() ==> place(#[trigger] pairs@[n]) == partner(
                views_of(old_keys@),
                views_of(new_keys@),
                n,
            ),
{
    let ghost old_views = views_of(old_keys@);
    let ghost new_views = views_of(new_keys@);
    let mut taken: Vec<bool> = Vec::new();
    let mut filled: usize = 0;
    while filled < old_keys.len()
        invariant
            filled <= old_keys@.len(),
            taken@.len() == filled,
            forall|o: int| 0 <= o < filled ==> !taken@[o],
        decreases old_keys@.len() - filled,
    {
        taken.push(false);
        filled = filled + 1;
    }
    let mut pairs: Vec<Option<usize>> = Vec::new();
    let mut n: usize = 0;
    while n < new_keys.len()
        invariant
            n <= new_keys@.len(),
            pairs@.len() == n,
            taken@.len() == old_keys@.len(),
            old_views == views_of(old_keys@),
            new_views == views_of(new_keys@),
            K::obeys_eq_spec(),
            forall|a: K, b: K| a.eq_spec(&b) <==> a@ == b@,
            forall|o: int|
                0 <= o < old_views.len() ==> (#[trigger] taken@[o] <==> rank(old_views, o)
                    < occurrences(new_views, old_views[o], n as int)),
            forall|j: int|
                0 <= j < n ==> place(#[trigger] pairs@[j]) == partner(old_views, new_views, j),
        decreases new_keys@.len() - n,
    {
        let ghost key = new_views[n as int];
        let ghost count = occurrences(new_views, key, n as int);
        let mut found: Option<usize> = None;
        let mut o: usize = 0;
        while o < old_keys.len() && found.is_none()
            invariant
                o <= old_keys@.len(),
                n < new_keys@.len(),
                taken@.len() == old_keys@.len(),
                old_views == views_of(old_keys@),
                new_views == views_of(new_keys@),
                key == new_views[n as int],
                K::obeys_eq_spec(),
                forall|a: K, b: K| a.eq_spec(&b) <==> a@ == b@,
                forall|before: int|
                    0 <= before < o && found is None ==> #[trigger] taken@[before] || old_views[before]
                        != key,
                found matches Some(at) ==> at == o && o < old_keys@.len() && !taken@[at as int]
                    && old_views[at as int] == key && forall|before: int|
                    0 <= before < at ==> #[trigger] taken@[before] || old_views[before] != key,
            decreases old_keys@.len() - o + if found is None { 1int } else { 0int },
        {
            let same = *old_keys[o] == *new_keys[n];
            assert(same == (old_views[o as int] == key));
            if !taken[o] && same {
                found = Some(o);
            } else {
                o = o + 1;
            }
        }
        proof {
            match found {
                Some(at) => {
                    let at = at as int;
                    if rank(old_views, at) > count {
                        let earlier = lemma_rank_taken_for(old_views, key, at, count);
                        assert(taken@[earlier] || old_views[earlier] != key);
                    }
                    lemma_partner_is(old_views, new_views, at, n as int);
                },
                None => {
                    if exists|o: int| partners(old_views, new_views, o, n as int) {
                        let o = choose|o: int| partners(old_views, new_views, o, n as int);
                        assert(taken@[o] || old_views[o] != key);
                    }
                },
            }
        }
        let ghost taken_before = taken@;
        match found {
            Some(at) => {
                taken[at] = true;
            },
            None => {},
        }
        pairs.push(found);
        proof {
            assert forall|o: int| 0 <= o < old_views.len() implies (#[trigger] taken@[o] <==> rank(
                old_views,
                o,
            ) < occurrences(new_views, old_views[o], n as int + 1)) by {
                assert(taken_before[o] <==> rank(old_views, o) < occurrences(
                    new_views,
                    old_views[o],
                    n as int,
                ));
                if old_views[o] == key {
                    match found {
                        Some(at) => {
                            if o < at {
                                lemma_rank_tells_apart(old_views, o, at as int);
                            } else if o > at {
                                lemma_rank_tells_apart(old_views, at as int, o);
                            }
                        },
                        None => {
                            assert(taken_before[o] || old_views[o] != key);
                        },
                    }
                }
            }
        }
        n = n + 1;
    }
    pairs
}

} // verus!
