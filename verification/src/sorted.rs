//! Sets of strings, kept as lists in ascending order that hold nothing twice.

use crate::json::string_views;
use crate::order::{
    lemma_less_asymmetric, lemma_less_total, lemma_less_transitive, seq_less, str_less,
};
use crate::text::str_eq;
use vstd::prelude::*;

verus! {

/// Every string comes before the ones behind it.
pub open spec fn strictly_sorted(list: Seq<Seq<char>>) -> bool {
    forall|i: int, j: int|
        0 <= i < j < list.len() ==> seq_less(#[trigger] list[i], #[trigger] list[j])
}

/// The sorted list `sorted` with `item` put at its place, unless it holds it.
pub open spec fn insert_into(sorted: Seq<Seq<char>>, item: Seq<char>) -> Seq<Seq<char>>
    decreases sorted.len(),
{
    if sorted.len() == 0 {
        seq![item]
    } else if sorted.last() == item {
        sorted
    } else if seq_less(sorted.last(), item) {
        sorted.push(item)
    } else {
        insert_into(sorted.drop_last(), item).push(sorted.last())
    }
}

/// Putting a string into a sorted list leaves it sorted, and adds that string to
/// what it holds and nothing else.
pub proof fn lemma_insert_into(sorted: Seq<Seq<char>>, item: Seq<char>)
    requires
        strictly_sorted(sorted),
    ensures
        strictly_sorted(insert_into(sorted, item)),
        forall|x: Seq<char>|
            #![trigger insert_into(sorted, item).contains(x)]
            #![trigger sorted.contains(x)]
            insert_into(sorted, item).contains(x) <==> (sorted.contains(x) || x == item),
    decreases sorted.len(),
{
    let out = insert_into(sorted, item);
    if sorted.len() == 0 {
        assert(out[0] == item);
        assert forall|x: Seq<char>| out.contains(x) <==> (sorted.contains(x) || x == item) by {
            if out.contains(x) {
                let i = choose|i: int| 0 <= i < out.len() && out[i] == x;
            }
        }
    } else if sorted.last() == item {
        assert(sorted[sorted.len() - 1] == item);
    } else if seq_less(sorted.last(), item) {
        assert forall|i: int, j: int| 0 <= i < j < out.len() implies seq_less(
            #[trigger] out[i],
            #[trigger] out[j],
        ) by {
            if j < sorted.len() {
                assert(out[i] == sorted[i] && out[j] == sorted[j]);
            } else {
                assert(out[i] == sorted[i]);
                if i < sorted.len() - 1 {
                    lemma_less_transitive(sorted[i], sorted.last(), item);
                }
            }
        }
        assert forall|x: Seq<char>| out.contains(x) <==> (sorted.contains(x) || x == item) by {
            if out.contains(x) {
                let i = choose|i: int| 0 <= i < out.len() && out[i] == x;
                if i < sorted.len() {
                    assert(sorted[i] == x);
                }
            }
            if sorted.contains(x) {
                let i = choose|i: int| 0 <= i < sorted.len() && sorted[i] == x;
                assert(out[i] == x);
            }
            if x == item {
                assert(out[sorted.len() as int] == x);
            }
        }
    } else {
        let shorter = sorted.drop_last();
        let last = sorted.last();
        assert(strictly_sorted(shorter)) by {
            assert forall|i: int, j: int| 0 <= i < j < shorter.len() implies seq_less(
                #[trigger] shorter[i],
                #[trigger] shorter[j],
            ) by {
                assert(shorter[i] == sorted[i] && shorter[j] == sorted[j]);
            }
        }
        lemma_insert_into(shorter, item);
        let inner = insert_into(shorter, item);
        lemma_less_total(last, item);
        assert(seq_less(item, last));
        assert forall|i: int, j: int| 0 <= i < j < out.len() implies seq_less(
            #[trigger] out[i],
            #[trigger] out[j],
        ) by {
            if j < inner.len() {
                assert(out[i] == inner[i] && out[j] == inner[j]);
            } else {
                assert(out[i] == inner[i]);
                assert(out[j] == last);
                let x = inner[i];
                assert(inner.contains(x));
                assert(shorter.contains(x) || x == item);
                if x != item {
                    let k = choose|k: int| 0 <= k < shorter.len() && shorter[k] == x;
                    assert(sorted[k] == x);
                    assert(seq_less(sorted[k], sorted[sorted.len() - 1]));
                }
            }
        }
        assert forall|x: Seq<char>| out.contains(x) <==> (sorted.contains(x) || x == item) by {
            if out.contains(x) {
                let i = choose|i: int| 0 <= i < out.len() && out[i] == x;
                if i < inner.len() {
                    assert(inner[i] == x);
                    assert(inner.contains(x));
                    assert(shorter.contains(x) || x == item);
                    if x != item {
                        let k = choose|k: int| 0 <= k < shorter.len() && shorter[k] == x;
                        assert(sorted[k] == x);
                    }
                } else {
                    assert(sorted[sorted.len() - 1] == x);
                }
            }
            if sorted.contains(x) {
                let k = choose|k: int| 0 <= k < sorted.len() && sorted[k] == x;
                if k < shorter.len() {
                    assert(shorter[k] == x);
                    assert(shorter.contains(x));
                    assert(inner.contains(x));
                    let i = choose|i: int| 0 <= i < inner.len() && inner[i] == x;
                    assert(out[i] == x);
                } else {
                    assert(out[inner.len() as int] == x);
                }
            }
            if x == item {
                assert(inner.contains(item));
                let i = choose|i: int| 0 <= i < inner.len() && inner[i] == x;
                assert(out[i] == x);
            }
        }
    }
}

proof fn lemma_insert_at(sorted: Seq<Seq<char>>, item: Seq<char>, at: int)
    requires
        strictly_sorted(sorted),
        0 <= at <= sorted.len(),
        forall|k: int| at <= k < sorted.len() ==> seq_less(item, #[trigger] sorted[k]),
        at > 0 ==> !seq_less(item, sorted[at - 1]),
    ensures
        insert_into(sorted, item) == if at > 0 && sorted[at - 1] == item {
            sorted
        } else {
            sorted.insert(at, item)
        },
    decreases sorted.len(),
{
    if sorted.len() == 0 {
        assert(sorted.insert(0, item) =~= seq![item]);
    } else if at == sorted.len() {
        lemma_less_total(sorted.last(), item);
        if sorted.last() != item {
            assert(sorted.insert(at, item) =~= sorted.push(item));
        }
    } else {
        let last = sorted.last();
        assert(seq_less(item, sorted[sorted.len() - 1]));
        lemma_less_asymmetric(item, last);
        let shorter = sorted.drop_last();
        assert(strictly_sorted(shorter)) by {
            assert forall|i: int, j: int| 0 <= i < j < shorter.len() implies seq_less(
                #[trigger] shorter[i],
                #[trigger] shorter[j],
            ) by {
                assert(shorter[i] == sorted[i] && shorter[j] == sorted[j]);
            }
        }
        assert forall|k: int| at <= k < shorter.len() implies seq_less(
            item,
            #[trigger] shorter[k],
        ) by {
            assert(shorter[k] == sorted[k]);
        }
        if at > 0 {
            assert(shorter[at - 1] == sorted[at - 1]);
        }
        lemma_insert_at(shorter, item, at);
        if at > 0 && sorted[at - 1] == item {
            assert(shorter.push(last) =~= sorted);
        } else {
            assert(shorter.insert(at, item).push(last) =~= sorted.insert(at, item));
        }
    }
}

/// Puts `item` at its place in `list`, unless `list` holds it.
pub fn insert_sorted(list: &mut Vec<String>, item: String)
    requires
        strictly_sorted(string_views(old(list)@)),
    ensures
        string_views(final(list)@) == insert_into(string_views(old(list)@), item@),
        strictly_sorted(string_views(final(list)@)),
{
    let ghost before = string_views(list@);
    let mut at: usize = list.len();
    while at > 0 && str_less(item.as_str(), list[at - 1].as_str())
        invariant
            at <= list@.len(),
            before == string_views(list@),
            forall|k: int| at <= k < before.len() ==> seq_less(item@, #[trigger] before[k]),
        decreases at,
    {
        assert(before[at - 1] == list@[at - 1]@);
        at -= 1;
    }
    proof {
        if at > 0 {
            assert(before[at - 1] == list@[at - 1]@);
        }
        lemma_insert_at(before, item@, at as int);
        lemma_insert_into(before, item@);
    }
    if at > 0 && str_eq(list[at - 1].as_str(), item.as_str()) {
        return ;
    }
    list.insert(at, item);
    assert(string_views(list@) =~= before.insert(at as int, item@));
}

} // verus!
