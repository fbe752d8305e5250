//! Lists of named entries in which each name occurs once, read as maps
//! from names to values.

use vstd::prelude::*;
use crate::text::same_text;

verus! {

/// Names of `es`, in order.
pub open spec fn names_of<V>(es: Seq<(String, V)>) -> Seq<Seq<char>> {
    es.map_values(|e: (String, V)| e.0@)
}

/// The map from names to values that `es` holds; a later entry wins.
pub open spec fn table_map<V>(es: Seq<(String, V)>) -> Map<Seq<char>, V>
    decreases es.len(),
{
    if es.len() == 0 {
        Map::empty()
    } else {
        table_map(es.drop_last()).insert(es.last().0@, es.last().1)
    }
}

/// No name occurs twice in `es`.
pub open spec fn unique_names<V>(es: Seq<(String, V)>) -> bool {
    forall|i: int, j: int| 0 <= i < j < es.len() ==> es[i].0@ != es[j].0@
}

pub proof fn lemma_table_map<V>(es: Seq<(String, V)>)
    requires
        unique_names(es),
    ensures
        forall|k: Seq<char>|
            #[trigger] table_map(es).contains_key(k) <==> exists|i: int|
                0 <= i < es.len() && es[i].0@ == k,
        forall|i: int| 0 <= i < es.len() ==> #[trigger] table_map(es)[es[i].0@] == es[i].1,
    decreases es.len(),
{
    if es.len() > 0 {
        let p = es.drop_last();
        let last = es[es.len() - 1];
        assert(unique_names(p));
        lemma_table_map(p);
        assert(table_map(es) == table_map(p).insert(last.0@, last.1));
        assert forall|k: Seq<char>| #[trigger] table_map(es).contains_key(k) <==> exists|i: int|
            0 <= i < es.len() && es[i].0@ == k by {
            if k == last.0@ {
                assert(es[es.len() - 1].0@ == k);
            } else {
                assert(table_map(es).contains_key(k) == table_map(p).contains_key(k));
                if table_map(p).contains_key(k) {
                    let i = choose|i: int| 0 <= i < p.len() && p[i].0@ == k;
                    assert(es[i].0@ == k);
                }
                if exists|i: int| 0 <= i < es.len() && es[i].0@ == k {
                    let i = choose|i: int| 0 <= i < es.len() && es[i].0@ == k;
                    assert(i < es.len() - 1);
                    assert(p[i].0@ == k);
                    assert(table_map(p).contains_key(k));
                }
            }
        }
        assert forall|i: int| 0 <= i < es.len() implies #[trigger] table_map(es)[es[i].0@]
            == es[i].1 by {
            if i < es.len() - 1 {
                assert(es[i].0@ != last.0@);
                assert(p[i] == es[i]);
                assert(table_map(p)[p[i].0@] == p[i].1);
            }
        }
    }
}

/// Replacing an entry by one of the same name replaces that name's value.
pub proof fn lemma_table_map_update<V>(es: Seq<(String, V)>, i: int, e: (String, V))
    requires
        unique_names(es),
        0 <= i < es.len(),
        es[i].0@ == e.0@,
    ensures
        unique_names(es.update(i, e)),
        table_map(es.update(i, e)) == table_map(es).insert(e.0@, e.1),
{
    let nes = es.update(i, e);
    assert forall|a: int, b: int| 0 <= a < b < nes.len() implies nes[a].0@ != nes[b].0@ by {
        assert(nes[a].0@ == es[a].0@);
        assert(nes[b].0@ == es[b].0@);
    }
    lemma_table_map(es);
    lemma_table_map(nes);
    let m = table_map(es).insert(e.0@, e.1);
    assert forall|k: Seq<char>| #[trigger] table_map(nes).contains_key(k) <==> m.contains_key(k) by {
        if exists|j: int| 0 <= j < es.len() && es[j].0@ == k {
            let j = choose|j: int| 0 <= j < es.len() && es[j].0@ == k;
            assert(nes[j].0@ == k);
        }
        if exists|j: int| 0 <= j < nes.len() && nes[j].0@ == k {
            let j = choose|j: int| 0 <= j < nes.len() && nes[j].0@ == k;
            assert(es[j].0@ == k);
        }
    }
    assert forall|k: Seq<char>| #[trigger] table_map(nes).contains_key(k) implies table_map(nes)[k]
        == m[k] by {
        let j = choose|j: int| 0 <= j < nes.len() && nes[j].0@ == k;
        assert(table_map(nes)[nes[j].0@] == nes[j].1);
        if j != i {
            assert(table_map(es)[es[j].0@] == es[j].1);
        }
    }
    assert(table_map(nes) =~= m);
}
/// Appending an entry under a new name adds that name to the map.
pub proof fn lemma_table_map_push<V>(es: Seq<(String, V)>, e: (String, V))
    requires
        unique_names(es),
        forall|i: int| 0 <= i < es.len() ==> es[i].0@ != e.0@,
    ensures
        unique_names(es.push(e)),
        table_map(es.push(e)) == table_map(es).insert(e.0@, e.1),
{
    let nes = es.push(e);
    assert(nes.drop_last() =~= es);
    assert forall|a: int, b: int| 0 <= a < b < nes.len() implies nes[a].0@ != nes[b].0@ by {
        if b == nes.len() - 1 {
            assert(nes[a] == es[a]);
        } else {
            assert(nes[a] == es[a] && nes[b] == es[b]);
        }
    }
}

/// The position of the entry named `name`, if there is one.
pub fn find_name<V>(es: &Vec<(String, V)>, name: &str) -> (r: Option<usize>)
    ensures
        r matches Some(i) ==> i < es@.len() && es@[i as int].0@ == name@,
        r is None ==> forall|i: int| 0 <= i < es@.len() ==> es@[i].0@ != name@,
{
    let mut i: usize = 0;
    while i < es.len()
        invariant
            i <= es@.len(),
            forall|k: int| 0 <= k < i ==> es@[k].0@ != name@,
        decreases es.len() - i,
    {
        if same_text(es[i].0.as_str(), name) {
            return Some(i);
        }
        i = i + 1;
    }
    None
}

} // verus!
