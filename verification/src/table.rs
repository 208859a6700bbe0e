//! Keyed tables: a list of `(name, value)` entries read as a finite map in
//! which a later entry for a name replaces an earlier one.
use vstd::prelude::*;

verus! {

/// The map that a list of keyed entries denotes.
pub open spec fn table_view<V: View>(es: Seq<(String, V)>) -> Map<Seq<char>, V::V>
    decreases es.len(),
{
    if es.len() == 0 {
        Map::empty()
    } else {
        table_view(es.drop_last()).insert(es.last().0@, es.last().1@)
    }
}

/// Appending an entry inserts it into the denoted map.
pub proof fn lemma_table_push<V: View>(es: Seq<(String, V)>, e: (String, V))
    ensures
        table_view(es.push(e)) == table_view(es).insert(e.0@, e.1@),
{
    assert(es.push(e).drop_last() =~= es);
}

/// Entries after position `i` whose names differ from `k` do not change what the map holds at `k`.
pub proof fn lemma_table_suffix_absent<V: View>(es: Seq<(String, V)>, i: int, k: Seq<char>)
    requires
        0 <= i <= es.len(),
        forall|j: int| i <= j < es.len() ==> (#[trigger] es[j]).0@ != k,
    ensures
        table_view(es).contains_key(k) == table_view(es.take(i)).contains_key(k),
        table_view(es).contains_key(k) ==> table_view(es)[k] == table_view(es.take(i))[k],
    decreases es.len() - i,
{
    if i == es.len() {
        assert(es.take(i) =~= es);
    } else {
        lemma_table_suffix_absent(es, i + 1, k);
        assert(es.take(i + 1).drop_last() =~= es.take(i));
    }
}

/// The map holds at `k` the value of the last entry named `k`.
pub proof fn lemma_table_last_entry<V: View>(es: Seq<(String, V)>, i: int)
    requires
        0 <= i < es.len(),
        forall|j: int| i < j < es.len() ==> (#[trigger] es[j]).0@ != es[i].0@,
    ensures
        table_view(es).contains_key(es[i].0@),
        table_view(es)[es[i].0@] == es[i].1@,
{
    lemma_table_suffix_absent(es, i + 1, es[i].0@);
    assert(es.take(i + 1).drop_last() =~= es.take(i));
    assert(es.take(i + 1).last() == es[i]);
}

/// Replacing the last entry named `k` inserts the new value at `k`.
pub proof fn lemma_table_update_last<V: View>(es: Seq<(String, V)>, i: int, e: (String, V))
    requires
        0 <= i < es.len(),
        e.0@ == es[i].0@,
        forall|j: int| i < j < es.len() ==> (#[trigger] es[j]).0@ != es[i].0@,
    ensures
        table_view(es.update(i, e)) == table_view(es).insert(e.0@, e.1@),
    decreases es.len(),
{
    let u = es.update(i, e);
    if i == es.len() - 1 {
        assert(u.drop_last() =~= es.drop_last());
        assert(table_view(u) =~= table_view(es).insert(e.0@, e.1@));
    } else {
        let es2 = es.drop_last();
        assert(u.drop_last() =~= es2.update(i, e));
        assert forall|j: int| i < j < es2.len() implies (#[trigger] es2[j]).0@ != es2[i].0@ by {
            assert(es2[j] == es[j]);
        }
        lemma_table_update_last(es2, i, e);
        assert(es[es.len() - 1].0@ != es[i].0@);
        assert(u.last() == es.last());
        assert(table_view(u) =~= table_view(es).insert(e.0@, e.1@));
    }
}

/// Position of the last entry named `key`.
pub fn table_position<V: View>(es: &Vec<(String, V)>, key: &String) -> (r: Option<usize>)
    ensures
        match r {
            Some(i) => i < es.len() && es@[i as int].0@ == key@ && forall|j: int|
                i < j < es.len() ==> (#[trigger] es@[j]).0@ != key@,
            None => forall|j: int| 0 <= j < es.len() ==> (#[trigger] es@[j]).0@ != key@,
        },
        r is Some <==> table_view(es@).contains_key(key@),
{
    let mut i = es.len();
    while i > 0
        invariant
            i <= es.len(),
            forall|j: int| i <= j < es.len() ==> (#[trigger] es@[j]).0@ != key@,
        decreases i,
    {
        if es[i - 1].0 == *key {
            proof {
                lemma_table_last_entry(es@, i - 1);
            }
            return Some(i - 1);
        }
        i -= 1;
    }
    proof {
        lemma_table_suffix_absent(es@, 0, key@);
    }
    None
}

/// The value that the table holds for `key`.
pub fn table_get<'a, V: View>(es: &'a Vec<(String, V)>, key: &String) -> (r: Option<&'a V>)
    ensures
        match r {
            Some(v) => table_view(es@).contains_key(key@) && v@ == table_view(es@)[key@],
            None => !table_view(es@).contains_key(key@),
        },
{
    match table_position(es, key) {
        Some(i) => {
            proof {
                lemma_table_last_entry(es@, i as int);
            }
            Some(&es[i].1)
        },
        None => None,
    }
}

/// Sets the value of `key`, replacing the entry that held it if there is one.
pub fn table_insert<V: View>(es: &mut Vec<(String, V)>, key: String, value: V)
    ensures
        table_view(final(es)@) == table_view(old(es)@).insert(key@, value@),
{
    match table_position(es, &key) {
        Some(i) => {
            proof {
                lemma_table_update_last(es@, i as int, (key, value));
            }
            es.set(i, (key, value));
        },
        None => {
            proof {
                lemma_table_push(es@, (key, value));
            }
            es.push((key, value));
        },
    }
}

} // verus!
