//! Lists of named values in the order of their names, as maps from names to
//! values.

use vstd::prelude::*;

use crate::text;

verus! {

/// Whether the entries are in the order of their names, no two of which are
/// equal.
pub open spec fn ordered<V>(list: Seq<(Seq<char>, V)>) -> bool {
    forall|i: int, j: int|
        0 <= i < j < list.len() ==> text::precedes(
            (#[trigger] list[i]).0,
            (#[trigger] list[j]).0,
        )
}

/// The list as a map from names to values.
pub open spec fn entries<V>(list: Seq<(Seq<char>, V)>) -> Map<Seq<char>, V>
    decreases list.len(),
{
    if list.len() == 0 {
        Map::empty()
    } else {
        entries(list.drop_last()).insert(list.last().0, list.last().1)
    }
}

pub proof fn lemma_entries<V>(list: Seq<(Seq<char>, V)>)
    requires
        ordered(list),
    ensures
        forall|name: Seq<char>| #[trigger]
            entries(list).contains_key(name) <==> exists|i: int|
                0 <= i < list.len() && (#[trigger] list[i]).0 == name,
        forall|i: int|
            0 <= i < list.len() ==> entries(list)[(#[trigger] list[i]).0] == list[i].1,
    decreases list.len(),
{
    if list.len() > 0 {
        let n = list.len() - 1;
        let init = list.drop_last();
        assert forall|i: int, j: int| 0 <= i < j < init.len() implies text::precedes(
            (#[trigger] init[i]).0,
            (#[trigger] init[j]).0,
        ) by {
            assert(text::precedes(list[i].0, list[j].0));
        }
        lemma_entries(init);
        assert(list.last() == list[n]);
        assert forall|name: Seq<char>| #[trigger]
            entries(list).contains_key(name) <==> exists|i: int|
                0 <= i < list.len() && (#[trigger] list[i]).0 == name by {
            if entries(init).contains_key(name) {
                let i = choose|i: int| 0 <= i < init.len() && (#[trigger] init[i]).0 == name;
                assert(list[i].0 == name);
            } else if exists|i: int| 0 <= i < list.len() && (#[trigger] list[i]).0 == name {
                let i = choose|i: int| 0 <= i < list.len() && (#[trigger] list[i]).0 == name;
                if i < n {
                    assert(init[i].0 == name);
                }
            }
        }
        assert forall|i: int| 0 <= i < list.len() implies entries(list)[(
        #[trigger] list[i]).0] == list[i].1 by {
            if i < n {
                assert(text::precedes(list[i].0, list[n].0));
                text::lemma_precedes_irreflexive(list[n].0);
                assert(init[i] == list[i]);
                assert(entries(init).contains_key(init[i].0));
            }
        }
    }
}

pub proof fn lemma_replaced<V>(
    list: Seq<(Seq<char>, V)>,
    i: int,
    item: (Seq<char>, V),
)
    requires
        ordered(list),
        0 <= i < list.len(),
        list[i].0 == item.0,
    ensures
        entries(list.update(i, item)) == entries(list).insert(item.0, item.1),
{
    let after = list.update(i, item);
    assert forall|a: int, b: int| 0 <= a < b < after.len() implies text::precedes(
        (#[trigger] after[a]).0,
        (#[trigger] after[b]).0,
    ) by {
        assert(text::precedes(list[a].0, list[b].0));
    }
    assert(after[i] == item);
    assert forall|k: int| 0 <= k < list.len() implies (#[trigger] list[k]).0 == item.0
        || after.contains(list[k]) by {
        if k != i {
            assert(after[k] == list[k]);
        }
    }
    assert forall|k: int| 0 <= k < after.len() implies #[trigger] after[k] == item
        || list.contains(after[k]) by {
        if k != i {
            assert(list[k] == after[k]);
        }
    }
    lemma_same_entries(list, after, item);
}

/// The list has the entries of the other with one set.
proof fn lemma_same_entries<V>(
    list: Seq<(Seq<char>, V)>,
    after: Seq<(Seq<char>, V)>,
    item: (Seq<char>, V),
)
    requires
        ordered(list),
        ordered(after),
        after.contains(item),
        forall|k: int|
            0 <= k < list.len() ==> (#[trigger] list[k]).0 == item.0 || after.contains(
                list[k],
            ),
        forall|k: int|
            0 <= k < after.len() ==> #[trigger] after[k] == item || list.contains(after[k]),
    ensures
        entries(after) == entries(list).insert(item.0, item.1),
{
    lemma_entries(list);
    lemma_entries(after);
    let want = entries(list).insert(item.0, item.1);
    let at = choose|k: int| 0 <= k < after.len() && after[k] == item;
    assert(entries(after)[after[at].0] == after[at].1);
    assert forall|name: Seq<char>| #[trigger] entries(after).contains_key(name)
        <==> want.contains_key(name) by {
        if entries(after).contains_key(name) {
            let k = choose|k: int| 0 <= k < after.len() && (#[trigger] after[k]).0 == name;
            if after[k] != item {
                let j = choose|j: int| 0 <= j < list.len() && list[j] == after[k];
                assert(list[j].0 == name);
            }
        }
        if want.contains_key(name) {
            if name == item.0 {
                assert(after[at].0 == name);
            } else {
                let j = choose|j: int| 0 <= j < list.len() && (#[trigger] list[j]).0 == name;
                let k = choose|k: int| 0 <= k < after.len() && after[k] == list[j];
                assert(after[k].0 == name);
            }
        }
    }
    assert forall|name: Seq<char>| #[trigger] entries(after).contains_key(name) implies entries(
        after,
    )[name] == want[name] by {
        if name == item.0 {
            assert(after[at].0 == name);
        } else {
            assert(want.contains_key(name));
            let j = choose|j: int| 0 <= j < list.len() && (#[trigger] list[j]).0 == name;
            let k = choose|k: int| 0 <= k < after.len() && after[k] == list[j];
            assert(entries(after)[after[k].0] == after[k].1);
        }
    }
    assert(entries(after) =~= want);
}

pub proof fn lemma_inserted<V>(
    list: Seq<(Seq<char>, V)>,
    i: int,
    item: (Seq<char>, V),
)
    requires
        ordered(list),
        0 <= i <= list.len(),
        forall|k: int| 0 <= k < i ==> text::precedes((#[trigger] list[k]).0, item.0),
        i < list.len() ==> text::precedes(item.0, list[i].0),
    ensures
        ordered(list.insert(i, item)),
        entries(list.insert(i, item)) == entries(list).insert(item.0, item.1),
{
    let after = list.insert(i, item);
    assert forall|k: int| i <= k < list.len() implies text::precedes(
        item.0,
        (#[trigger] list[k]).0,
    ) by {
        if k > i {
            assert(text::precedes(list[i].0, list[k].0));
            text::lemma_precedes_transitive(item.0, list[i].0, list[k].0);
        }
    }
    assert forall|a: int, b: int| 0 <= a < b < after.len() implies text::precedes(
        (#[trigger] after[a]).0,
        (#[trigger] after[b]).0,
    ) by {
        if a < i {
            assert(after[a] == list[a]);
        } else if a > i {
            assert(after[a] == list[a - 1]);
        }
        if b < i {
            assert(after[b] == list[b]);
        } else if b > i {
            assert(after[b] == list[b - 1]);
        }
    }
    assert(after[i] == item);
    assert forall|k: int| 0 <= k < list.len() implies after.contains(#[trigger] list[k]) by {
        if k < i {
            assert(after[k] == list[k]);
        } else {
            assert(after[k + 1] == list[k]);
        }
    }
    assert forall|k: int| 0 <= k < after.len() implies #[trigger] after[k] == item
        || list.contains(after[k]) by {
        if k < i {
            assert(list[k] == after[k]);
        } else if k > i {
            assert(list[k - 1] == after[k]);
        }
    }
    lemma_same_entries(list, after, item);
}

/// A list in order is determined by what it maps each name to, whatever the
/// order in which its entries were put in.
pub proof fn law_order_determines_the_list<V>(
    a: Seq<(Seq<char>, V)>,
    b: Seq<(Seq<char>, V)>,
)
    requires
        ordered(a),
        ordered(b),
        entries(a) == entries(b),
    ensures
        a == b,
    decreases a.len(),
{
    lemma_entries(a);
    lemma_entries(b);
    if a.len() == 0 {
        if b.len() > 0 {
            assert(entries(b).contains_key(b[0].0));
        }
        assert(a =~= b);
    } else {
        let n = a.len() - 1;
        assert(entries(a).contains_key(a[n].0));
        let j = choose|j: int| 0 <= j < b.len() && (#[trigger] b[j]).0 == a[n].0;
        let m = b.len() - 1;
        assert(entries(b).contains_key(b[m].0));
        let i = choose|i: int| 0 <= i < a.len() && (#[trigger] a[i]).0 == b[m].0;
        if j < m {
            assert(text::precedes(b[j].0, b[m].0));
            if i < n {
                assert(text::precedes(a[i].0, a[n].0));
                text::lemma_precedes_transitive(a[n].0, b[m].0, a[n].0);
            }
            text::lemma_precedes_irreflexive(a[n].0);
        }
        assert(a[n].0 == b[m].0);
        assert(a[n] == b[m]);
        let a0 = a.drop_last();
        let b0 = b.drop_last();
        lemma_without_last(a);
        lemma_without_last(b);
        law_order_determines_the_list(a0, b0);
        assert(a0.push(a.last()) =~= a);
        assert(b0.push(b.last()) =~= b);
    }
}

proof fn lemma_without_last<V>(list: Seq<(Seq<char>, V)>)
    requires
        ordered(list),
        list.len() > 0,
    ensures
        ordered(list.drop_last()),
        entries(list.drop_last()) == entries(list).remove(list.last().0),
{
    let init = list.drop_last();
    let n = list.len() - 1;
    assert forall|i: int, j: int| 0 <= i < j < init.len() implies text::precedes(
        (#[trigger] init[i]).0,
        (#[trigger] init[j]).0,
    ) by {
        assert(text::precedes(list[i].0, list[j].0));
    }
    lemma_entries(init);
    if entries(init).contains_key(list[n].0) {
        let i = choose|i: int| 0 <= i < init.len() && (#[trigger] init[i]).0 == list[n].0;
        assert(text::precedes(list[i].0, list[n].0));
        text::lemma_precedes_irreflexive(list[n].0);
    }
    assert(entries(init) =~= entries(list).remove(list.last().0));
}

} // verus!
