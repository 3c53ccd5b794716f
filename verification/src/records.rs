//! A table written out as a list of its entries, and read back from one.

use vstd::prelude::*;
use crate::sums::{lemma_sum_insert, sum_values};

verus! {

/// The entries of a table, read as natural numbers.
pub open spec fn as_amounts<K>(entries: Map<K, u64>) -> Map<K, nat> {
    Map::new(|key: K| entries.dom().contains(key), |key: K| entries[key] as nat)
}

/// Reading a table as natural numbers keeps its keys, and commutes with writing an
/// entry.
pub proof fn lemma_as_amounts<K>(entries: Map<K, u64>, key: K, value: u64)
    ensures
        as_amounts(entries).dom() == entries.dom(),
        as_amounts(entries.insert(key, value)) == as_amounts(entries).insert(key, value as nat),
{
    assert(as_amounts(entries).dom() =~= entries.dom());
    assert(as_amounts(entries.insert(key, value)) =~= as_amounts(entries).insert(
        key,
        value as nat,
    ));
}

/// Whether no key occurs twice in a list of entries.
pub open spec fn distinct_keys<K>(list: Seq<(K, u64)>) -> bool {
    forall|i: int, j: int|
        0 <= i < j < list.len() ==> (#[trigger] list[i]).0 != (#[trigger] list[j]).0
}

/// Whether some entry of the list is under `key`.
pub open spec fn lists_key<K>(list: Seq<(K, u64)>, key: K) -> bool {
    exists|i: int| 0 <= i < list.len() && (#[trigger] list[i]).0 == key
}

/// The amounts that a list of entries describes, by key. Where a key occurs more
/// than once, its last entry counts.
pub open spec fn listed<K>(list: Seq<(K, u64)>) -> Map<K, nat>
    decreases list.len(),
{
    if list.len() == 0 {
        Map::empty()
    } else {
        listed(list.drop_last()).insert(list.last().0, list.last().1 as nat)
    }
}

/// Whether `list` names every entry of `entries` exactly once.
pub open spec fn lists_each_once<K>(list: Seq<(K, u64)>, entries: Map<K, u64>) -> bool {
    &&& distinct_keys(list)
    &&& forall|i: int|
        0 <= i < list.len() ==> entries.contains_pair((#[trigger] list[i]).0, list[i].1)
    &&& forall|key: K| #[trigger] entries.dom().contains(key) ==> lists_key(list, key)
}

/// The keys of the described amounts are the keys in the list, and there are
/// finitely many.
pub proof fn lemma_listed_keys<K>(list: Seq<(K, u64)>)
    ensures
        listed(list).dom().finite(),
        listed(list).dom().len() <= list.len(),
        forall|key: K| listed(list).dom().contains(key) <==> lists_key(list, key),
    decreases list.len(),
{
    if list.len() > 0 {
        let front = list.drop_last();
        lemma_listed_keys(front);
        assert forall|key: K| listed(list).dom().contains(key) <==> lists_key(list, key) by {
            if lists_key(list, key) {
                let i = choose|i: int| 0 <= i < list.len() && (#[trigger] list[i]).0 == key;
                if i < front.len() {
                    assert(front[i].0 == key);
                }
            }
            if lists_key(front, key) {
                let i = choose|i: int| 0 <= i < front.len() && (#[trigger] front[i]).0 == key;
                assert(list[i].0 == key);
            }
            if key == list.last().0 {
                assert(list[list.len() - 1].0 == key);
            }
        }
    }
}

/// In a list without repeated keys every entry is the amount described for its key,
/// and the list is as long as there are keys.
pub proof fn lemma_listed_distinct<K>(list: Seq<(K, u64)>)
    requires
        distinct_keys(list),
    ensures
        listed(list).dom().len() == list.len(),
        forall|i: int|
            0 <= i < list.len() ==> listed(list).contains_pair(
                (#[trigger] list[i]).0,
                list[i].1 as nat,
            ),
    decreases list.len(),
{
    if list.len() > 0 {
        let front = list.drop_last();
        assert(distinct_keys(front)) by {
            assert forall|i: int, j: int| 0 <= i < j < front.len() implies (#[trigger] front[i]).0
                != (#[trigger] front[j]).0 by {
                assert(list[i].0 != list[j].0);
            }
        }
        lemma_listed_distinct(front);
        lemma_listed_keys(front);
        assert(!listed(front).dom().contains(list.last().0)) by {
            if lists_key(front, list.last().0) {
                let i = choose|i: int|
                    0 <= i < front.len() && (#[trigger] front[i]).0 == list.last().0;
                assert(list[i].0 != list[list.len() - 1].0);
            }
        }
        assert forall|i: int| 0 <= i < list.len() implies listed(list).contains_pair(
            (#[trigger] list[i]).0,
            list[i].1 as nat,
        ) by {
            if i < front.len() {
                assert(listed(front).contains_pair(front[i].0, front[i].1 as nat));
                assert(list[i].0 != list[list.len() - 1].0);
            }
        }
    }
}

/// A list that names every entry of a table exactly once describes that table.
pub proof fn lemma_listed_each_once<K>(list: Seq<(K, u64)>, entries: Map<K, u64>)
    requires
        lists_each_once(list, entries),
    ensures
        listed(list) == as_amounts(entries),
        entries.dom().len() == list.len(),
{
    lemma_listed_keys(list);
    lemma_listed_distinct(list);
    let amounts = as_amounts(entries);
    assert forall|key: K| listed(list).dom().contains(key) <==> amounts.dom().contains(key) by {
        if lists_key(list, key) {
            let i = choose|i: int| 0 <= i < list.len() && (#[trigger] list[i]).0 == key;
            assert(entries.contains_pair(list[i].0, list[i].1));
        }
    }
    assert forall|key: K| listed(list).dom().contains(key) implies listed(list)[key]
        == amounts[key] by {
        assert(lists_key(list, key));
        let i = choose|i: int| 0 <= i < list.len() && (#[trigger] list[i]).0 == key;
        assert(listed(list).contains_pair(list[i].0, list[i].1 as nat));
        assert(entries.contains_pair(list[i].0, list[i].1));
    }
    assert(listed(list) =~= amounts);
    assert(entries.dom() =~= listed(list).dom());
}

/// A list with one more entry has no repeated key when the shorter list has none
/// and the new key is not in it.
pub proof fn lemma_distinct_extends<K>(list: Seq<(K, u64)>, n: int)
    requires
        0 <= n < list.len(),
        distinct_keys(list.take(n)),
        !lists_key(list.take(n), list[n].0),
    ensures
        distinct_keys(list.take(n + 1)),
        list.take(n + 1).drop_last() == list.take(n),
        list.take(n + 1).last() == list[n],
{
    let shorter = list.take(n);
    let longer = list.take(n + 1);
    assert(longer.drop_last() == shorter);
    assert forall|i: int, j: int| 0 <= i < j < longer.len() implies (#[trigger] longer[i]).0
        != (#[trigger] longer[j]).0 by {
        if j < n {
            assert(shorter[i].0 != shorter[j].0);
        } else {
            assert(shorter[i].0 == longer[i].0);
        }
    }
}

/// A key that the beginning of a list holds already is repeated in the list.
pub proof fn lemma_repeated_key<K>(list: Seq<(K, u64)>, n: int)
    requires
        0 <= n < list.len(),
        lists_key(list.take(n), list[n].0),
    ensures
        !distinct_keys(list),
{
    let shorter = list.take(n);
    let i = choose|i: int| 0 <= i < shorter.len() && (#[trigger] shorter[i]).0 == list[n].0;
    assert(list[i].0 == list[n].0);
}

/// Without repeated keys, the amounts of a longer list sum to no less than those
/// of its beginning, and one more entry adds exactly its amount.
pub proof fn lemma_listed_sum_grows<K>(list: Seq<(K, u64)>, n: int)
    requires
        distinct_keys(list),
        0 <= n <= list.len(),
    ensures
        sum_values(listed(list.take(n))) <= sum_values(listed(list)),
        n < list.len() ==> sum_values(listed(list.take(n + 1))) == sum_values(
            listed(list.take(n)),
        ) + list[n].1,
    decreases list.len() - n,
{
    if n == list.len() {
        assert(list.take(n) == list);
    } else {
        let shorter = list.take(n);
        let longer = list.take(n + 1);
        assert(longer.drop_last() == shorter);
        assert(longer.last() == list[n]);
        lemma_listed_keys(shorter);
        assert(!listed(shorter).dom().contains(list[n].0)) by {
            if lists_key(shorter, list[n].0) {
                let i = choose|i: int|
                    0 <= i < shorter.len() && (#[trigger] shorter[i]).0 == list[n].0;
                assert(list[i].0 != list[n].0);
            }
        }
        lemma_sum_insert(listed(shorter), list[n].0, list[n].1 as nat);
        lemma_listed_sum_grows(list, n + 1);
    }
}

} // verus!
