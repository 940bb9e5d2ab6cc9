//! Lists of records that are told apart by an id, as they are kept up to date
//! from a stream of events: an event replaces the record with its id, adds
//! it, or takes it off the list.

use vstd::prelude::*;

verus! {

/// A record with an id.
pub trait Record: Copy {
    spec fn key(self) -> i64;

    fn id(&self) -> (r: i64)
        ensures
            r == self.key(),
    ;
}

/// Whether a record with the id is on the list.
pub open spec fn listed<T: Record>(list: Seq<T>, id: i64) -> bool {
    exists|i: int| 0 <= i < list.len() && (#[trigger] list[i]).key() == id
}

/// Whether the first record with the id is at the place.
pub open spec fn is_first<T: Record>(list: Seq<T>, id: i64, i: int) -> bool {
    &&& 0 <= i < list.len()
    &&& list[i].key() == id
    &&& forall|j: int| 0 <= j < i ==> (#[trigger] list[j]).key() != id
}

/// The place of the first record with the id.
pub open spec fn first<T: Record>(list: Seq<T>, id: i64) -> int {
    choose|i: int| is_first(list, id, i)
}

/// The test for records with another id.
pub open spec fn differs<T: Record>(id: i64) -> spec_fn(T) -> bool {
    |x: T| x.key() != id
}

/// The records with other ids.
pub open spec fn others<T: Record>(list: Seq<T>, id: i64) -> Seq<T> {
    list.filter(differs(id))
}

/// The list after an event about a record. When the record is done, it is
/// taken off; else it replaces the first record with its id, or is added.
pub open spec fn updated<T: Record>(list: Seq<T>, item: T, done: bool) -> Seq<T> {
    if done {
        others(list, item.key())
    } else if listed(list, item.key()) {
        list.update(first(list, item.key()), item)
    } else {
        list.push(item)
    }
}

/// Whether no two records have the same id.
pub open spec fn unique<T: Record>(list: Seq<T>) -> bool {
    forall|i: int, j: int|
        0 <= i < j < list.len() ==> (#[trigger] list[i]).key() != (#[trigger] list[j]).key()
}

pub proof fn lemma_first<T: Record>(list: Seq<T>, id: i64, i: int)
    requires
        is_first(list, id, i),
    ensures
        first(list, id) == i,
        listed(list, id),
{
    let f = first(list, id);
    assert(is_first(list, id, f));
}

/// The first record with the id.
pub fn find<T: Record>(list: &Vec<T>, id: i64) -> (r: Option<usize>)
    ensures
        match r {
            Some(i) => listed(list@, id) && i == first(list@, id) && i < list@.len()
                && list@[i as int].key() == id,
            None => !listed(list@, id),
        },
{
    for i in 0..list.len()
        invariant
            forall|j: int| 0 <= j < i ==> (#[trigger] list@[j]).key() != id,
    {
        if list[i].id() == id {
            proof {
                lemma_first(list@, id, i as int);
            }
            return Some(i);
        }
    }
    None
}

fn without<T: Record>(list: &Vec<T>, id: i64) -> (out: Vec<T>)
    ensures
        out@ == others(list@, id),
{
    let mut out: Vec<T> = Vec::new();
    proof {
        reveal(Seq::filter);
        assert(others(list@.take(0), id) =~= Seq::empty());
    }
    for i in 0..list.len()
        invariant
            out@ == others(list@.take(i as int), id),
    {
        if list[i].id() != id {
            out.push(list[i]);
        }
        proof {
            list@.take(i as int).lemma_filter_push(list@[i as int], differs(id));
            assert(list@.take(i + 1) =~= list@.take(i as int).push(list@[i as int]));
        }
    }
    assert(list@.take(list@.len() as int) =~= list@);
    out
}

/// Brings the list up to date with an event about a record.
pub fn update<T: Record>(list: &mut Vec<T>, item: T, done: bool)
    ensures
        final(list)@ == updated(old(list)@, item, done),
{
    let id = item.id();
    if done {
        let kept = without(list, id);
        *list = kept;
    } else {
        match find(list, id) {
            Some(i) => {
                list.set(i, item);
            },
            None => {
                list.push(item);
            },
        }
    }
}

// ------------------------------------------------------------------- lemmas

pub proof fn lemma_done_is_gone<T: Record>(list: Seq<T>, item: T)
    ensures
        !listed(updated(list, item, true), item.key()),
{
    broadcast use vstd::seq_lib::group_filter_ensures;

    let kept = others(list, item.key());
    assert forall|i: int| 0 <= i < kept.len() implies (#[trigger] kept[i]).key() != item.key() by {
        assert(differs::<T>(item.key())(kept[i]));
    }
}

pub proof fn lemma_open_is_listed<T: Record>(list: Seq<T>, item: T)
    ensures
        updated(list, item, false).contains(item),
{
    let after = updated(list, item, false);
    if listed(list, item.key()) {
        let i = first(list, item.key());
        lemma_first_exists(list, item.key());
        assert(after[i] == item);
    } else {
        assert(after[list.len() as int] == item);
    }
}

proof fn lemma_first_exists<T: Record>(list: Seq<T>, id: i64)
    requires
        listed(list, id),
    ensures
        is_first(list, id, first(list, id)),
    decreases list.len(),
{
    let k = choose|k: int| 0 <= k < list.len() && (#[trigger] list[k]).key() == id;
    lemma_first_below(list, id, k);
}

/// The place of the first record with the id.
pub proof fn lemma_first_place<T: Record>(list: Seq<T>, id: i64) -> (i: int)
    requires
        listed(list, id),
    ensures
        i == first(list, id),
        is_first(list, id, i),
{
    lemma_first_exists(list, id);
    first(list, id)
}

proof fn lemma_first_below<T: Record>(list: Seq<T>, id: i64, k: int)
    requires
        0 <= k < list.len(),
        list[k].key() == id,
    ensures
        exists|i: int| is_first(list, id, i),
    decreases k,
{
    if exists|j: int| 0 <= j < k && (#[trigger] list[j]).key() == id {
        let j = choose|j: int| 0 <= j < k && (#[trigger] list[j]).key() == id;
        lemma_first_below(list, id, j);
    } else {
        assert(is_first(list, id, k));
    }
}

pub proof fn lemma_unique_kept<T: Record>(list: Seq<T>, item: T, done: bool)
    requires
        unique(list),
    ensures
        unique(updated(list, item, done)),
{
    let after = updated(list, item, done);
    if done {
        lemma_unique_filtered(list, item.key());
    } else if listed(list, item.key()) {
        lemma_first_exists(list, item.key());
        let f = first(list, item.key());
        assert forall|i: int, j: int| 0 <= i < j < after.len() implies (#[trigger] after[i]).key()
            != (#[trigger] after[j]).key() by {
            assert(list[i].key() != list[j].key());
            assert(after[i].key() == list[i].key());
            assert(after[j].key() == list[j].key());
        }
    }
}

proof fn lemma_unique_filtered<T: Record>(list: Seq<T>, id: i64)
    requires
        unique(list),
    ensures
        unique(others(list, id)),
    decreases list.len(),
{
    reveal(Seq::filter);
    if list.len() > 0 {
        let init = list.drop_last();
        assert forall|i: int, j: int| 0 <= i < j < init.len() implies (#[trigger] init[i]).key()
            != (#[trigger] init[j]).key() by {
            assert(list[i].key() != list[j].key());
        }
        lemma_unique_filtered(init, id);
        let kept = others(init, id);
        assert forall|i: int| 0 <= i < kept.len() implies (#[trigger] kept[i]).key()
            != list.last().key() by {
            init.lemma_filter_contains_rev(differs(id), kept[i]);
            let k = choose|k: int| 0 <= k < init.len() && init[k] == kept[i];
            assert(list[k].key() != list[list.len() - 1].key());
        }
    }
}

pub proof fn lemma_others_kept<T: Record>(list: Seq<T>, item: T, done: bool)
    ensures
        others(updated(list, item, done), item.key()) == others(list, item.key()),
{
    broadcast use Seq::lemma_filter_push;

    let id = item.key();
    if done {
        lemma_filter_twice(list, id);
    } else if listed(list, id) {
        lemma_first_exists(list, id);
        lemma_others_update(list, item, first(list, id));
    }
}

proof fn lemma_filter_twice<T: Record>(list: Seq<T>, id: i64)
    ensures
        others(others(list, id), id) == others(list, id),
    decreases list.len(),
{
    broadcast use Seq::lemma_filter_push;

    reveal(Seq::filter);
    if list.len() > 0 {
        lemma_filter_twice(list.drop_last(), id);
    }
}

proof fn lemma_others_update<T: Record>(list: Seq<T>, item: T, f: int)
    requires
        0 <= f < list.len(),
        list[f].key() == item.key(),
    ensures
        others(list.update(f, item), item.key()) == others(list, item.key()),
    decreases list.len(),
{
    reveal(Seq::filter);
    let after = list.update(f, item);
    if f < list.len() - 1 {
        lemma_others_update(list.drop_last(), item, f);
        assert(after.drop_last() =~= list.drop_last().update(f, item));
    } else {
        assert(after.drop_last() =~= list.drop_last());
    }
}

pub proof fn lemma_update_twice<T: Record>(list: Seq<T>, item: T, done: bool)
    ensures
        updated(updated(list, item, done), item, done) == updated(list, item, done),
{
    let id = item.key();
    let once = updated(list, item, done);
    if done {
        lemma_filter_twice(list, id);
    } else if listed(list, id) {
        lemma_first_exists(list, id);
        let f = first(list, id);
        assert(is_first(once, id, f)) by {
            assert forall|j: int| 0 <= j < f implies (#[trigger] once[j]).key() != id by {
                assert(list[j].key() != id);
            }
        }
        lemma_first(once, id, f);
        assert(once.update(f, item) =~= once);
    } else {
        let f = list.len() as int;
        assert(is_first(once, id, f)) by {
            assert forall|j: int| 0 <= j < f implies (#[trigger] once[j]).key() != id by {
                assert(list[j].key() != id);
            }
        }
        lemma_first(once, id, f);
        assert(once.update(f, item) =~= once);
    }
}

} // verus!
