//! Tables: sequences of values that are found by a key, each key once.

use vstd::prelude::*;

verus! {

/// Values that are found by a key.
pub trait HasKey: Sized {
    /// The key of the value.
    spec fn key(self) -> Seq<char>;
}

/// Whether no two values have the same key.
pub open spec fn distinct_keys<V: HasKey>(s: Seq<V>) -> bool {
    forall|i: int, j: int| 0 <= i < j < s.len() ==> #[trigger] s[i].key() != #[trigger] s[j].key()
}

/// The values by their keys; of two with the same key the later one.
pub open spec fn keyed<V: HasKey>(s: Seq<V>) -> Map<Seq<char>, V>
    decreases s.len(),
{
    if s.len() == 0 {
        Map::empty()
    } else {
        keyed(s.drop_last()).insert(s.last().key(), s.last())
    }
}

/// Whether `s` holds each value of `m`, once, and nothing else.
pub open spec fn lists<V: HasKey>(s: Seq<V>, m: Map<Seq<char>, V>) -> bool {
    &&& distinct_keys(s)
    &&& forall|i: int|
        0 <= i < s.len() ==> m.dom().contains(#[trigger] s[i].key()) && m[s[i].key()] == s[i]
    &&& forall|k: Seq<char>| #[trigger]
        m.dom().contains(k) ==> exists|i: int| 0 <= i < s.len() && #[trigger] s[i].key() == k
}

pub proof fn lemma_keyed<V: HasKey>(s: Seq<V>)
    ensures
        forall|k: Seq<char>| #[trigger]
            keyed(s).dom().contains(k) ==> exists|i: int|
                0 <= i < s.len() && #[trigger] s[i].key() == k && keyed(s)[k] == s[i],
        forall|i: int| 0 <= i < s.len() ==> keyed(s).dom().contains(#[trigger] s[i].key()),
        distinct_keys(s) ==> lists(s, keyed(s)),
    decreases s.len(),
{
    if s.len() > 0 {
        let t = s.drop_last();
        lemma_keyed(t);
        assert forall|k: Seq<char>| #[trigger] keyed(s).dom().contains(k) implies exists|i: int|
            0 <= i < s.len() && #[trigger] s[i].key() == k && keyed(s)[k] == s[i] by {
            if k == s.last().key() {
                assert(s[s.len() - 1].key() == k);
            } else {
                assert(keyed(t).dom().contains(k));
                let i = choose|i: int|
                    0 <= i < t.len() && #[trigger] t[i].key() == k && keyed(t)[k] == t[i];
                assert(s[i].key() == k);
            }
        }
        assert forall|i: int| 0 <= i < s.len() implies keyed(s).dom().contains(
            #[trigger] s[i].key(),
        ) by {
            if i < t.len() {
                assert(t[i].key() == s[i].key());
            }
        }
        if distinct_keys(s) {
            assert(distinct_keys(t)) by {
                assert forall|i: int, j: int| 0 <= i < j < t.len() implies #[trigger] t[i].key()
                    != #[trigger] t[j].key() by {
                    assert(s[i].key() != s[j].key());
                }
            }
            assert forall|i: int| 0 <= i < s.len() implies keyed(s)[#[trigger] s[i].key()] == s[i] by {
                if i < t.len() {
                    assert(t[i].key() == s[i].key());
                    assert(s[i].key() != s[s.len() - 1].key());
                }
            }
        }
    }
}

/// What a table holds is pinned down by any list of it.
pub proof fn lemma_listed<V: HasKey>(s: Seq<V>, m: Map<Seq<char>, V>)
    requires
        lists(s, m),
    ensures
        keyed(s) == m,
{
    lemma_keyed(s);
    assert forall|k: Seq<char>| keyed(s).dom().contains(k) == #[trigger] m.dom().contains(
        k,
    ) by {
        if m.dom().contains(k) {
            let i = choose|i: int| 0 <= i < s.len() && #[trigger] s[i].key() == k;
            assert(keyed(s).dom().contains(s[i].key()));
        }
        if keyed(s).dom().contains(k) {
            let i = choose|i: int|
                0 <= i < s.len() && #[trigger] s[i].key() == k && keyed(s)[k] == s[i];
            assert(m.dom().contains(s[i].key()));
        }
    }
    assert forall|k: Seq<char>| #[trigger] keyed(s).dom().contains(k) implies keyed(s)[k]
        == m[k] by {
        let i = choose|i: int| 0 <= i < s.len() && #[trigger] s[i].key() == k && keyed(s)[k] == s[i];
        assert(m.dom().contains(s[i].key()));
    }
    assert(keyed(s) =~= m);
}

pub proof fn lemma_keyed_update<V: HasKey>(s: Seq<V>, i: int, x: V)
    requires
        distinct_keys(s),
        0 <= i < s.len(),
        s[i].key() == x.key(),
    ensures
        distinct_keys(s.update(i, x)),
        keyed(s.update(i, x)) == keyed(s).insert(x.key(), x),
{
    let t = s.update(i, x);
    let m = keyed(s).insert(x.key(), x);
    lemma_keyed(s);
    assert forall|a: int, b: int| 0 <= a < b < t.len() implies #[trigger] t[a].key()
        != #[trigger] t[b].key() by {
        assert(s[a].key() != s[b].key());
    }
    assert forall|j: int| 0 <= j < t.len() implies m.dom().contains(#[trigger] t[j].key())
        && m[t[j].key()] == t[j] by {
        assert(s[j].key() == t[j].key());
        if j < i {
            assert(s[j].key() != s[i].key());
        } else if j > i {
            assert(s[i].key() != s[j].key());
        }
    }
    assert forall|k: Seq<char>| #[trigger] m.dom().contains(k) implies exists|j: int|
        0 <= j < t.len() && #[trigger] t[j].key() == k by {
        if k == x.key() {
            assert(t[i].key() == k);
        } else {
            assert(keyed(s).dom().contains(k));
            let j = choose|j: int| 0 <= j < s.len() && #[trigger] s[j].key() == k;
            assert(t[j].key() == k);
        }
    }
    lemma_listed(t, m);
}

pub proof fn lemma_keyed_remove<V: HasKey>(s: Seq<V>, i: int)
    requires
        distinct_keys(s),
        0 <= i < s.len(),
    ensures
        distinct_keys(s.remove(i)),
        keyed(s.remove(i)) == keyed(s).remove(s[i].key()),
{
    let t = s.remove(i);
    let m = keyed(s).remove(s[i].key());
    lemma_keyed(s);
    assert forall|a: int, b: int| 0 <= a < b < t.len() implies #[trigger] t[a].key()
        != #[trigger] t[b].key() by {
        let c = if a < i { a } else { a + 1 };
        let d = if b < i { b } else { b + 1 };
        assert(s[c].key() != s[d].key());
    }
    assert forall|j: int| 0 <= j < t.len() implies m.dom().contains(#[trigger] t[j].key())
        && m[t[j].key()] == t[j] by {
        let c = if j < i { j } else { j + 1 };
        assert(t[j] == s[c]);
        assert(keyed(s).dom().contains(s[c].key()));
        if c < i {
            assert(s[c].key() != s[i].key());
        } else {
            assert(s[i].key() != s[c].key());
        }
    }
    assert forall|k: Seq<char>| #[trigger] m.dom().contains(k) implies exists|j: int|
        0 <= j < t.len() && #[trigger] t[j].key() == k by {
        assert(keyed(s).dom().contains(k));
        let j = choose|j: int| 0 <= j < s.len() && #[trigger] s[j].key() == k;
        let c = if j < i { j } else { j - 1 };
        assert(t[c].key() == k);
    }
    lemma_listed(t, m);
}

pub proof fn lemma_keyed_push<V: HasKey>(s: Seq<V>, x: V)
    requires
        distinct_keys(s),
        forall|i: int| 0 <= i < s.len() ==> #[trigger] s[i].key() != x.key(),
    ensures
        distinct_keys(s.push(x)),
        keyed(s.push(x)) == keyed(s).insert(x.key(), x),
{
    assert(s.push(x).drop_last() =~= s);
    let t = s.push(x);
    assert forall|a: int, b: int| 0 <= a < b < t.len() implies #[trigger] t[a].key()
        != #[trigger] t[b].key() by {
        assert(s[a].key() == t[a].key());
        if b < s.len() {
            assert(s[a].key() != s[b].key());
        }
    }
}

/// A value that a list does not hold yet can be put anywhere into it.
pub proof fn lemma_lists_insert<V: HasKey>(
    s: Seq<V>,
    m: Map<Seq<char>, V>,
    at: int,
    x: V,
)
    requires
        lists(s, m),
        0 <= at <= s.len(),
        !m.dom().contains(x.key()),
    ensures
        lists(s.insert(at, x), m.insert(x.key(), x)),
{
    let t = s.insert(at, x);
    let n = m.insert(x.key(), x);
    assert forall|i: int, j: int| 0 <= i < j < t.len() implies #[trigger] t[i].key()
        != #[trigger] t[j].key() by {
        let a = if i < at { i } else { i - 1 };
        let b = if j < at { j } else { j - 1 };
        if i == at {
            assert(t[j] == s[b]);
            assert(m.dom().contains(s[b].key()));
        } else if j == at {
            assert(t[i] == s[a]);
            assert(m.dom().contains(s[a].key()));
        } else {
            assert(s[a].key() != s[b].key());
        }
    }
    assert forall|i: int| 0 <= i < t.len() implies n.dom().contains(#[trigger] t[i].key())
        && n[t[i].key()] == t[i] by {
        if i != at {
            let a = if i < at { i } else { i - 1 };
            assert(t[i] == s[a]);
            assert(m.dom().contains(s[a].key()));
        }
    }
    assert forall|k: Seq<char>| #[trigger] n.dom().contains(k) implies exists|i: int|
        0 <= i < t.len() && #[trigger] t[i].key() == k by {
        if k == x.key() {
            assert(t[at].key() == k);
        } else {
            assert(m.dom().contains(k));
            let i = choose|i: int| 0 <= i < s.len() && #[trigger] s[i].key() == k;
            let a = if i < at { i } else { i + 1 };
            assert(t[a].key() == k);
        }
    }
}

/// Each value of a list adds one to what those before it hold.
pub proof fn lemma_keyed_take<V: HasKey>(s: Seq<V>, i: int)
    requires
        distinct_keys(s),
        0 <= i < s.len(),
    ensures
        distinct_keys(s.take(i)),
        !keyed(s.take(i)).dom().contains(s[i].key()),
        keyed(s.take(i + 1)) == keyed(s.take(i)).insert(s[i].key(), s[i]),
{
    let t = s.take(i);
    assert(s.take(i + 1).drop_last() =~= t);
    assert forall|a: int, b: int| 0 <= a < b < t.len() implies #[trigger] t[a].key()
        != #[trigger] t[b].key() by {
        assert(s[a].key() != s[b].key());
    }
    lemma_keyed(t);
    if keyed(t).dom().contains(s[i].key()) {
        let a = choose|a: int| 0 <= a < t.len() && #[trigger] t[a].key() == s[i].key();
        assert(s[a].key() != s[i].key());
    }
}

/// The place of the first value with a key.
pub open spec fn first_keyed<V: HasKey>(s: Seq<V>, k: Seq<char>) -> Option<int>
    decreases s.len(),
{
    if s.len() == 0 {
        None
    } else {
        match first_keyed(s.drop_last(), k) {
            Some(i) => Some(i),
            None => if s.last().key() == k {
                Some(s.len() - 1)
            } else {
                None
            },
        }
    }
}

/// The first value with a key stands where no earlier value has it.
pub proof fn lemma_first_keyed<V: HasKey>(s: Seq<V>, k: Seq<char>)
    ensures
        match first_keyed(s, k) {
            Some(i) => 0 <= i < s.len() && s[i].key() == k && forall|j: int|
                0 <= j < i ==> (#[trigger] s[j]).key() != k,
            None => forall|j: int| 0 <= j < s.len() ==> (#[trigger] s[j]).key() != k,
        },
    decreases s.len(),
{
    if s.len() > 0 {
        let t = s.drop_last();
        lemma_first_keyed(t, k);
        match first_keyed(t, k) {
            Some(i) => {
                assert forall|j: int| 0 <= j < i implies (#[trigger] s[j]).key() != k by {
                    assert(t[j] == s[j]);
                }
            },
            None => {
                assert forall|j: int| 0 <= j < s.len() - 1 implies (#[trigger] s[j]).key() != k by {
                    assert(t[j] == s[j]);
                }
            },
        }
    }
}

/// What stands in front of all other values with a key is the first of them.
pub proof fn lemma_is_first_keyed<V: HasKey>(s: Seq<V>, k: Seq<char>, i: int)
    requires
        0 <= i < s.len(),
        s[i].key() == k,
        forall|j: int| 0 <= j < i ==> (#[trigger] s[j]).key() != k,
    ensures
        first_keyed(s, k) == Some(i),
{
    lemma_first_keyed(s, k);
}

/// Without a value that has a key there is no first one.
pub proof fn lemma_none_keyed<V: HasKey>(s: Seq<V>, k: Seq<char>)
    requires
        forall|j: int| 0 <= j < s.len() ==> (#[trigger] s[j]).key() != k,
    ensures
        first_keyed(s, k) is None,
{
    lemma_first_keyed(s, k);
}

/// The values with other keys.
pub open spec fn without<V: HasKey>(s: Seq<V>, k: Seq<char>) -> Seq<V>
    decreases s.len(),
{
    if s.len() == 0 {
        Seq::empty()
    } else if s.last().key() == k {
        without(s.drop_last(), k)
    } else {
        without(s.drop_last(), k).push(s.last())
    }
}

/// A list after a value was put into it: in the place of the one with its key,
/// or behind all others.
pub open spec fn placed<V: HasKey>(s: Seq<V>, x: V) -> Seq<V> {
    match first_keyed(s, x.key()) {
        Some(i) => s.update(i, x),
        None => s.push(x),
    }
}

/// Putting a value that a table already holds into its list changes nothing.
pub proof fn lemma_placed_again<V: HasKey>(s: Seq<V>, m: Map<Seq<char>, V>, x: V)
    requires
        lists(s, m),
        m.dom().contains(x.key()),
        m[x.key()] == x,
    ensures
        placed(s, x) == s,
{
    lemma_first_keyed(s, x.key());
    let i = choose|i: int| 0 <= i < s.len() && #[trigger] s[i].key() == x.key();
    assert(s[i].key() == x.key());
    let j = first_keyed(s, x.key())->0;
    assert(m[s[j].key()] == s[j]);
    assert(s.update(j, x) =~= s);
}

/// The values of a list whose keys a table has, in their order.
pub open spec fn still_held<V: HasKey>(s: Seq<V>, m: Map<Seq<char>, V>) -> Seq<V>
    decreases s.len(),
{
    if s.len() == 0 {
        Seq::empty()
    } else if m.dom().contains(s.last().key()) {
        still_held(s.drop_last(), m).push(s.last())
    } else {
        still_held(s.drop_last(), m)
    }
}

/// What a table lists, it still holds.
pub proof fn lemma_all_held<V: HasKey>(s: Seq<V>, m: Map<Seq<char>, V>)
    requires
        forall|i: int| 0 <= i < s.len() ==> m.dom().contains((#[trigger] s[i]).key()),
    ensures
        still_held(s, m) == s,
    decreases s.len(),
{
    if s.len() > 0 {
        let t = s.drop_last();
        assert forall|i: int| 0 <= i < t.len() implies m.dom().contains((#[trigger] t[i]).key()) by {
            assert(t[i] == s[i]);
        }
        lemma_all_held(t, m);
        assert(s[s.len() - 1] == s.last());
        assert(t.push(s.last()) =~= s);
    } else {
        assert(s =~= Seq::empty());
    }
}

/// When a key is taken out of a table, what the table still holds of its list
/// are the values with other keys.
pub proof fn lemma_held_without<V: HasKey>(s: Seq<V>, m: Map<Seq<char>, V>, k: Seq<char>)
    requires
        forall|i: int| 0 <= i < s.len() ==> m.dom().contains((#[trigger] s[i]).key()),
    ensures
        still_held(s, m.remove(k)) == without(s, k),
    decreases s.len(),
{
    if s.len() > 0 {
        let t = s.drop_last();
        assert forall|i: int| 0 <= i < t.len() implies m.dom().contains((#[trigger] t[i]).key()) by {
            assert(t[i] == s[i]);
        }
        lemma_held_without(t, m, k);
        assert(s[s.len() - 1] == s.last());
    }
}

/// In a list with each key once, taking out a value leaves those with other
/// keys.
pub proof fn lemma_remove_is_without<V: HasKey>(s: Seq<V>, i: int)
    requires
        distinct_keys(s),
        0 <= i < s.len(),
    ensures
        s.remove(i) == without(s, s[i].key()),
    decreases s.len(),
{
    let k = s[i].key();
    let t = s.drop_last();
    assert forall|a: int, b: int| 0 <= a < b < t.len() implies #[trigger] t[a].key()
        != #[trigger] t[b].key() by {
        assert(s[a].key() != s[b].key());
    }
    if i == s.len() - 1 {
        assert forall|a: int| 0 <= a < t.len() implies (#[trigger] t[a]).key() != k by {
            assert(s[a].key() != s[i].key());
        }
        lemma_without_absent(t, k);
        assert(s.remove(i) =~= t);
    } else {
        lemma_remove_is_without(t, i);
        assert(s[i].key() != s[s.len() - 1].key());
        assert(t[i] == s[i]);
        assert(s.remove(i) =~= t.remove(i).push(s.last()));
    }
}

/// Leaving out a key that no value has leaves out nothing.
pub proof fn lemma_without_absent<V: HasKey>(s: Seq<V>, k: Seq<char>)
    requires
        forall|i: int| 0 <= i < s.len() ==> (#[trigger] s[i]).key() != k,
    ensures
        without(s, k) == s,
    decreases s.len(),
{
    if s.len() > 0 {
        let t = s.drop_last();
        assert forall|i: int| 0 <= i < t.len() implies (#[trigger] t[i]).key() != k by {
            assert(t[i] == s[i]);
        }
        lemma_without_absent(t, k);
        assert(s[s.len() - 1] == s.last());
        assert(t.push(s.last()) =~= s);
    } else {
        assert(s =~= Seq::empty());
    }
}

/// Leaving out a key leaves it out of each part of a list.
pub proof fn lemma_without_joined<V: HasKey>(a: Seq<V>, b: Seq<V>, k: Seq<char>)
    ensures
        without(a + b, k) == without(a, k) + without(b, k),
    decreases b.len(),
{
    if b.len() == 0 {
        assert(a + b =~= a);
        assert(without(a, k) + without(b, k) =~= without(a, k));
    } else {
        assert((a + b).drop_last() =~= a + b.drop_last());
        lemma_without_joined(a, b.drop_last(), k);
        assert((a + b).last() == b.last());
        if b.last().key() != k {
            assert(without(a + b, k) =~= without(a, k) + without(b, k));
        }
    }
}

/// What is left when a key is left out was there before.
pub proof fn lemma_without_is_part<V: HasKey>(s: Seq<V>, k: Seq<char>)
    ensures
        forall|i: int|
            0 <= i < without(s, k).len() ==> exists|j: int|
                0 <= j < s.len() && #[trigger] s[j] == #[trigger] without(s, k)[i],
    decreases s.len(),
{
    if s.len() > 0 {
        let t = s.drop_last();
        lemma_without_is_part(t, k);
        assert forall|i: int| 0 <= i < without(s, k).len() implies exists|j: int|
            0 <= j < s.len() && #[trigger] s[j] == #[trigger] without(s, k)[i] by {
            if i < without(t, k).len() {
                assert(without(s, k)[i] == without(t, k)[i]);
                let j = choose|j: int| 0 <= j < t.len() && #[trigger] t[j] == without(t, k)[i];
                assert(s[j] == without(s, k)[i]);
            } else {
                assert(s[s.len() - 1] == without(s, k)[i]);
            }
        }
    }
}

// ---------------------------------------------------------------------------
// Laws
// ---------------------------------------------------------------------------

/// Leaving a key out of a list leaves out exactly the values with that key, and
/// keeping what a table holds keeps exactly the values whose keys it has; the
/// others stay in their order.
pub proof fn law_lists_are_thinned_in_order<V: HasKey>(
    s: Seq<V>,
    k: Seq<char>,
    m: Map<Seq<char>, V>,
)
    ensures
        without(s, k) == s.filter(|x: V| x.key() != k),
        still_held(s, m) == s.filter(|x: V| m.dom().contains(x.key())),
    decreases s.len(),
{
    reveal(Seq::filter);
    if s.len() > 0 {
        law_lists_are_thinned_in_order(s.drop_last(), k, m);
    }
}

/// A value that is put into a list takes the place of the first with its key, or
/// stands behind all others where there is none; nothing else moves.
pub proof fn law_values_are_put_in_place<V: HasKey>(s: Seq<V>, x: V, i: int)
    ensures
        0 <= i < s.len() && s[i].key() == x.key() && (forall|j: int|
            0 <= j < i ==> (#[trigger] s[j]).key() != x.key()) ==> placed(s, x) == s.update(i, x),
        (forall|j: int| 0 <= j < s.len() ==> (#[trigger] s[j]).key() != x.key()) ==> placed(s, x)
            == s.push(x),
{
    lemma_first_keyed(s, x.key());
    if 0 <= i < s.len() && s[i].key() == x.key() && (forall|j: int|
        0 <= j < i ==> (#[trigger] s[j]).key() != x.key()) {
        lemma_is_first_keyed(s, x.key(), i);
    }
    if forall|j: int| 0 <= j < s.len() ==> (#[trigger] s[j]).key() != x.key() {
        lemma_none_keyed(s, x.key());
    }
}

/// A list is that of a table exactly where it has each key of the table once, with
/// its value, and no other.
pub proof fn law_lists_hold_each_value_once<V: HasKey>(s: Seq<V>, m: Map<Seq<char>, V>)
    requires
        lists(s, m),
    ensures
        forall|i: int|
            0 <= i < s.len() ==> m.dom().contains((#[trigger] s[i]).key()) && m[s[i].key()] == s[i],
        forall|k: Seq<char>| #[trigger] m.dom().contains(k) ==> s.contains(m[k]),
        forall|i: int, j: int|
            0 <= i < j < s.len() ==> (#[trigger] s[i]).key() != (#[trigger] s[j]).key(),
{
    assert forall|k: Seq<char>| #[trigger] m.dom().contains(k) implies s.contains(m[k]) by {
        let i = choose|i: int| 0 <= i < s.len() && #[trigger] s[i].key() == k;
        assert(s[i] == m[k]);
    }
}

}
