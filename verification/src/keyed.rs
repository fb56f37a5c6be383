//! Lists of named entries (the members of a JSON object, the servers of a
//! configuration, header and environment tables): lookup by name and
//! insertion that replaces an entry of the same name.

use vstd::prelude::*;

verus! {

/// The entries with their names and values taken by view.
pub open spec fn keyed_view<T: View>(m: Seq<(String, T)>) -> Seq<(Seq<char>, T::V)> {
    m.map_values(|e: (String, T)| (e.0@, e.1@))
}

/// No name occurs twice.
pub open spec fn distinct_names<V>(m: Seq<(Seq<char>, V)>) -> bool {
    forall|i: int, j: int| 0 <= i < j < m.len() ==> #[trigger] m[i].0 != #[trigger] m[j].0
}

/// The value of the first member named `key`, if there is one.
pub open spec fn lookup<V>(members: Seq<(Seq<char>, V)>, key: Seq<char>) -> Option<V>
    decreases members.len(),
{
    if members.len() == 0 {
        None
    } else if members[0].0 == key {
        Some(members[0].1)
    } else {
        lookup(members.drop_first(), key)
    }
}

/// The members with `key` set to `value`: the first member of that name
/// gets the new value in place, and where there is none the member is
/// added at the end. Like `serde_json::Map::insert`, a name then has one
/// value; the map keeps its names sorted, so the order kept here is the
/// model's own and is not what a written file shows.
pub open spec fn object_insert<V>(members: Seq<(Seq<char>, V)>, key: Seq<char>, value: V) -> Seq<
    (Seq<char>, V),
>
    decreases members.len(),
{
    if members.len() == 0 {
        seq![(key, value)]
    } else if members[0].0 == key {
        members.update(0, (key, value))
    } else {
        seq![members[0]] + object_insert(members.drop_first(), key, value)
    }
}

/// The names of the members, in order.
pub open spec fn member_names<V>(members: Seq<(Seq<char>, V)>) -> Seq<Seq<char>> {
    members.map_values(|e: (Seq<char>, V)| e.0)
}

/// Index of the first member named `key` in `members` (its length if none).
pub open spec fn first_index<V>(members: Seq<(Seq<char>, V)>, key: Seq<char>) -> int
    decreases members.len(),
{
    if members.len() == 0 {
        0
    } else if members[0].0 == key {
        0
    } else {
        1 + first_index(members.drop_first(), key)
    }
}

pub proof fn lemma_first_index<V>(members: Seq<(Seq<char>, V)>, key: Seq<char>)
    ensures
        0 <= first_index(members, key) <= members.len(),
        forall|j: int| 0 <= j < first_index(members, key) ==> #[trigger] members[j].0 != key,
        first_index(members, key) < members.len() ==> members[first_index(members, key)].0 == key,
        first_index(members, key) < members.len() ==> lookup(members, key) == Some(
            members[first_index(members, key)].1,
        ),
        first_index(members, key) == members.len() ==> lookup(members, key) is None,
    decreases members.len(),
{
    if members.len() > 0 && members[0].0 != key {
        lemma_first_index(members.drop_first(), key);
        assert forall|j: int| 0 <= j < first_index(members, key) implies #[trigger] members[j].0
            != key by {
            if j > 0 {
                assert(members[j] == members.drop_first()[j - 1]);
            }
        }
    }
}

/// `object_insert` replaces the first member of the name, or appends.
pub proof fn lemma_object_insert_shape<V>(
    members: Seq<(Seq<char>, V)>,
    key: Seq<char>,
    value: V,
)
    ensures
        first_index(members, key) < members.len() ==> object_insert(members, key, value)
            == members.update(first_index(members, key), (key, value)),
        first_index(members, key) == members.len() ==> object_insert(members, key, value)
            == members.push((key, value)),
    decreases members.len(),
{
    lemma_first_index(members, key);
    if members.len() > 0 && members[0].0 != key {
        lemma_object_insert_shape(members.drop_first(), key, value);
        lemma_first_index(members.drop_first(), key);
        if first_index(members, key) < members.len() {
            assert(object_insert(members, key, value) =~= members.update(
                first_index(members, key),
                (key, value),
            ));
        } else {
            assert(object_insert(members, key, value) =~= members.push((key, value)));
        }
    } else if members.len() == 0 {
        assert(object_insert(members, key, value) =~= members.push((key, value)));
    }
}

/// After `object_insert`, the name gives the new value and every other
/// name gives what it gave before.
pub proof fn lemma_object_insert_lookup<V>(
    members: Seq<(Seq<char>, V)>,
    key: Seq<char>,
    value: V,
    other: Seq<char>,
)
    ensures
        lookup(object_insert(members, key, value), key) == Some(value),
        other != key ==> lookup(object_insert(members, key, value), other) == lookup(
            members,
            other,
        ),
    decreases members.len(),
{
    if members.len() > 0 && members[0].0 != key {
        lemma_object_insert_lookup(members.drop_first(), key, value, other);
        let r = object_insert(members, key, value);
        assert(r.drop_first() =~= object_insert(members.drop_first(), key, value));
    } else if members.len() > 0 {
        let r = object_insert(members, key, value);
        assert(r[0].0 == key);
        if other != key {
            assert(r.drop_first() =~= members.drop_first());
            assert(lookup(r, other) == lookup(r.drop_first(), other));
        }
    } else {
        let r = object_insert(members, key, value);
        assert(r[0].0 == key);
        assert(r.drop_first() =~= Seq::<(Seq<char>, V)>::empty());
    }
}

/// Inserting the same name and value a second time changes nothing.
pub proof fn lemma_object_insert_idempotent<V>(
    members: Seq<(Seq<char>, V)>,
    key: Seq<char>,
    value: V,
)
    ensures
        object_insert(object_insert(members, key, value), key, value) == object_insert(
            members,
            key,
            value,
        ),
    decreases members.len(),
{
    let once = object_insert(members, key, value);
    if members.len() == 0 {
        assert(object_insert(once, key, value) =~= once);
    } else if members[0].0 == key {
        assert(object_insert(once, key, value) =~= once);
    } else {
        lemma_object_insert_idempotent(members.drop_first(), key, value);
        assert(once.drop_first() =~= object_insert(members.drop_first(), key, value));
        assert(object_insert(once, key, value) =~= once);
    }
}


/// Index of the first entry named `key`.
pub fn key_index<T: View>(m: &Vec<(String, T)>, key: &String) -> (r: Option<usize>)
    ensures
        r matches Some(i) ==> i < m@.len() && i == first_index(keyed_view(m@), key@),
        r matches Some(i) ==> lookup(keyed_view(m@), key@) == Some(m@[i as int].1@),
        r is None ==> lookup(keyed_view(m@), key@) is None,
        r is None ==> first_index(keyed_view(m@), key@) == m@.len(),
{
    let ghost mv = keyed_view(m@);
    proof {
        lemma_first_index(mv, key@);
    }
    let mut i: usize = 0;
    while i < m.len()
        invariant
            i <= m@.len(),
            mv == keyed_view(m@),
            mv.len() == m@.len(),
            0 <= first_index(mv, key@) <= mv.len(),
            forall|j: int| 0 <= j < first_index(mv, key@) ==> #[trigger] mv[j].0 != key@,
            first_index(mv, key@) < mv.len() ==> mv[first_index(mv, key@)].0 == key@,
            i <= first_index(mv, key@),
        decreases m@.len() - i,
    {
        assert(mv[i as int].1 == m@[i as int].1@);
        if m[i].0 == *key {
            assert(mv[i as int].0 == key@);
            assert(first_index(mv, key@) == i);
            proof {
                lemma_first_index(mv, key@);
            }
            return Some(i);
        }
        i = i + 1;
    }
    None
}

/// No entry after the first one named `key` has that name.
pub open spec fn named_at_most_once<V>(members: Seq<(Seq<char>, V)>, key: Seq<char>) -> bool {
    forall|j: int| first_index(members, key) < j < members.len() ==> #[trigger] members[j].0 != key
}

/// Whether at most one entry is named `key` (see `named_at_most_once`).
pub fn key_at_most_once<T: View>(m: &Vec<(String, T)>, key: &String) -> (r: bool)
    ensures
        r == named_at_most_once(keyed_view(m@), key@),
{
    let ghost mv = keyed_view(m@);
    assert(mv.len() == m@.len());
    match key_index(m, key) {
        None => true,
        Some(i) => {
            let n: usize = m.len();
            assert(i < n);
            let mut j: usize = i + 1;
            while j < m.len()
                invariant
                    mv == keyed_view(m@),
                    mv.len() == m@.len(),
                    i < m@.len(),
                    i == first_index(mv, key@),
                    i < j <= m@.len(),
                    forall|k: int| i < k < j ==> #[trigger] mv[k].0 != key@,
                decreases m@.len() - j,
            {
                if m[j].0 == *key {
                    assert(mv[j as int].0 == key@);
                    return false;
                }
                j = j + 1;
            }
            true
        },
    }
}

/// The entries gathered one after another as a map gathers them: an entry
/// whose name came before sets that entry's value, which keeps its place.
pub open spec fn collect_entries<V>(m: Seq<(Seq<char>, V)>) -> Seq<(Seq<char>, V)>
    decreases m.len(),
{
    if m.len() == 0 {
        seq![]
    } else {
        object_insert(collect_entries(m.drop_last()), m.last().0, m.last().1)
    }
}

/// Gathered entries name each name once.
pub proof fn lemma_collect_distinct<V>(m: Seq<(Seq<char>, V)>)
    ensures
        distinct_names(collect_entries(m)),
    decreases m.len(),
{
    if m.len() > 0 {
        lemma_collect_distinct(m.drop_last());
        lemma_object_insert_distinct(collect_entries(m.drop_last()), m.last().0, m.last().1);
    }
}

/// The entries gathered as a map gathers them (see `collect_entries`).
pub fn collect_keyed<T: View>(v: Vec<(String, T)>) -> (r: Vec<(String, T)>)
    ensures
        keyed_view(r@) == collect_entries(keyed_view(v@)),
{
    let ghost orig = keyed_view(v@);
    let mut v = v;
    let mut r: Vec<(String, T)> = Vec::new();
    let ghost mut k: int = 0;
    assert(orig.take(0) =~= Seq::<(Seq<char>, T::V)>::empty());
    assert(keyed_view(r@) =~= Seq::<(Seq<char>, T::V)>::empty());
    assert(keyed_view(v@) =~= orig.skip(0));
    while v.len() > 0
        invariant
            orig.len() == k + v@.len(),
            0 <= k <= orig.len(),
            keyed_view(v@) == orig.skip(k),
            keyed_view(r@) == collect_entries(orig.take(k)),
        decreases v@.len(),
    {
        let ghost before = v@;
        let (name, value) = v.remove(0);
        proof {
            assert(keyed_view(before)[0] == orig.skip(k)[0]);
            assert(orig[k] == (name@, value@));
            assert(orig.take(k + 1).drop_last() =~= orig.take(k));
            assert(orig.take(k + 1).last() == orig[k]);
        }
        keyed_insert(&mut r, name, value);
        proof {
            assert(keyed_view(v@) =~= orig.skip(k + 1)) by {
                assert(v@ =~= before.remove(0));
                assert forall|j: int| 0 <= j < v@.len() implies #[trigger] keyed_view(v@)[j]
                    == orig.skip(k + 1)[j] by {
                    assert(v@[j] == before[j + 1]);
                    assert(keyed_view(before)[j + 1] == orig.skip(k)[j + 1]);
                }
            }
            k = k + 1;
        }
    }
    assert(orig.take(k) =~= orig);
    r
}

/// Sets the entry named `key` to `value` (see `object_insert`).
pub fn keyed_insert<T: View>(m: &mut Vec<(String, T)>, key: String, value: T)
    ensures
        keyed_view(final(m)@) == object_insert(keyed_view(old(m)@), key@, value@),
{
    proof {
        lemma_object_insert_shape(keyed_view(old(m)@), key@, value@);
    }
    let ghost k = key@;
    let ghost v = value@;
    match key_index(m, &key) {
        Some(i) => {
            m.set(i, (key, value));
            assert(keyed_view(m@) =~= keyed_view(old(m)@).update(i as int, (k, v)));
        },
        None => {
            m.push((key, value));
            assert(keyed_view(m@) =~= keyed_view(old(m)@).push((k, v)));
        },
    }
}

/// Inserting keeps names distinct.
pub proof fn lemma_object_insert_distinct<V>(members: Seq<(Seq<char>, V)>, key: Seq<char>, value: V)
    requires
        distinct_names(members),
    ensures
        distinct_names(object_insert(members, key, value)),
{
    lemma_object_insert_shape(members, key, value);
    lemma_first_index(members, key);
    let r = object_insert(members, key, value);
    if first_index(members, key) < members.len() {
        assert forall|i: int, j: int| 0 <= i < j < r.len() implies #[trigger] r[i].0 != #[trigger] r[j].0 by {
            assert(members[i].0 != members[j].0);
        }
    } else {
        assert forall|i: int, j: int| 0 <= i < j < r.len() implies #[trigger] r[i].0 != #[trigger] r[j].0 by {
            if j < members.len() {
                assert(members[i].0 != members[j].0);
            } else {
                assert(members[i].0 != key);
            }
        }
    }
}

/// The value of the last entry named `key`, if there is one.
pub open spec fn last_lookup<V>(members: Seq<(Seq<char>, V)>, key: Seq<char>) -> Option<V>
    decreases members.len(),
{
    if members.len() == 0 {
        None
    } else if members.last().0 == key {
        Some(members.last().1)
    } else {
        last_lookup(members.drop_last(), key)
    }
}

/// A name has a first entry exactly when it is among the names.
pub proof fn lemma_lookup_named<V>(members: Seq<(Seq<char>, V)>, key: Seq<char>)
    ensures
        lookup(members, key) is Some <==> member_names(members).contains(key),
{
    lemma_first_index(members, key);
    let names = member_names(members);
    if lookup(members, key) is Some {
        assert(names[first_index(members, key)] == key);
    }
    if names.contains(key) {
        let j = choose|j: int| 0 <= j < names.len() && names[j] == key;
        assert(members[j].0 == key);
    }
}

/// A name has a last entry exactly when it is among the names.
pub proof fn lemma_last_lookup_named<V>(members: Seq<(Seq<char>, V)>, key: Seq<char>)
    ensures
        last_lookup(members, key) is Some <==> member_names(members).contains(key),
    decreases members.len(),
{
    let names = member_names(members);
    if members.len() > 0 {
        let init = members.drop_last();
        lemma_last_lookup_named(init, key);
        assert(member_names(init) =~= names.drop_last());
        if members.last().0 == key {
            assert(names[members.len() - 1] == key);
        } else if names.contains(key) {
            let j = choose|j: int| 0 <= j < names.len() && names[j] == key;
            assert(j < names.len() - 1);
            assert(member_names(init)[j] == key);
        }
    }
}

} // verus!
