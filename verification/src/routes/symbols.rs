//! `GET /api/symbols`

use vstd::prelude::*;

use crate::dto::SymbolInfo;
use crate::named;
use crate::state::AppState;
use crate::symbols;
use crate::symbols::SymbolMeta;
use crate::text;
use crate::text::is_before;

verus! {

/// Whether the ids are those of the listed symbols, in order: each symbol
/// that has both a name and metadata, once.
pub open spec fn lists(
    catalog: symbols::CatalogView,
    ids: Seq<i64>,
    list: Seq<SymbolInfo>,
) -> bool {
    &&& ids.len() == list.len()
    &&& ids.no_duplicates()
    &&& forall|i: int|
        0 <= i < ids.len() ==> catalog.has_details(#[trigger] ids[i]) && list[i].symbol@
            == catalog.names[ids[i]] && list[i].meta == catalog.metas[ids[i]]
    &&& forall|id: i64| #[trigger] catalog.has_details(id) ==> ids.contains(id)
}

/// Whether one of the first `k` entries has the id.
spec fn comes_from(entries: Seq<(i64, String, SymbolMeta)>, k: int, id: i64) -> bool {
    exists|e: int| 0 <= e < k && (#[trigger] entries[e]).0 == id
}

/// Whether no name comes before one that stands earlier.
pub open spec fn by_name(list: Seq<SymbolInfo>) -> bool {
    forall|i: int, j: int|
        0 <= i < j < list.len() ==> !text::precedes(
            (#[trigger] list[j]).symbol@,
            (#[trigger] list[i]).symbol@,
        )
}

/// Puts the item at its place in a list that is in order.
fn insert_by_name(list: &mut Vec<SymbolInfo>, item: SymbolInfo) -> (at: usize)
    requires
        by_name(old(list)@),
    ensures
        at <= old(list)@.len(),
        final(list)@ == old(list)@.insert(at as int, item),
        by_name(final(list)@),
{
    let ghost before = list@;
    let mut at: usize = list.len();
    while at > 0 && is_before(item.symbol.as_str(), list[at - 1].symbol.as_str())
        invariant
            at <= list@.len(),
            list@ == before,
            forall|i: int|
                at <= i < list@.len() ==> text::precedes(
                    item.symbol@,
                    (#[trigger] list@[i]).symbol@,
                ),
        decreases at,
    {
        at = at - 1;
    }
    let ghost name = item.symbol@;
    list.insert(at, item);
    let ghost after = list@;
    proof {
        assert forall|i: int| 0 <= i < at implies !text::precedes(
            name,
            (#[trigger] before[i]).symbol@,
        ) by {
            let top = before[at - 1].symbol@;
            if i < at - 1 && text::precedes(name, before[i].symbol@) {
                assert(!text::precedes(top, before[i].symbol@));
                text::lemma_precedes_total(top, before[i].symbol@);
                if text::precedes(before[i].symbol@, top) {
                    text::lemma_precedes_transitive(name, before[i].symbol@, top);
                }
            }
        }
        assert forall|i: int, j: int| 0 <= i < j < after.len() implies !text::precedes(
            (#[trigger] after[j]).symbol@,
            (#[trigger] after[i]).symbol@,
        ) by {
            if i == at {
                assert(after[j] == before[j - 1]);
                if text::precedes(before[j - 1].symbol@, name) {
                    text::lemma_precedes_transitive(name, before[j - 1].symbol@, name);
                    text::lemma_precedes_irreflexive(name);
                }
            } else if j == at {
                assert(after[i] == before[i]);
            } else {
                let p = if i < at {
                    i
                } else {
                    i - 1
                };
                let q = if j < at {
                    j
                } else {
                    j - 1
                };
                assert(after[i] == before[p]);
                assert(after[j] == before[q]);
            }
        }
    }
    at
}

/// The trading metadata of the symbols that have it, in the order of their
/// names.
pub fn list_symbols(state: &AppState) -> (out: Vec<SymbolInfo>)
    ensures
        by_name(out@),
        exists|ids: Seq<i64>| #[trigger] lists(state@.symbols, ids, out@),
{
    let entries = state.symbols.entries_with_meta();
    let mut out: Vec<SymbolInfo> = Vec::new();
    let ghost mut ids: Seq<i64> = Seq::empty();
    for k in 0..entries.len()
        invariant
            by_name(out@),
            ids.len() == out@.len(),
            ids.no_duplicates(),
            forall|i: int, j: int|
                0 <= i < j < entries@.len() ==> (#[trigger] entries@[i]).0 != (
                #[trigger] entries@[j]).0,
            forall|i: int|
                0 <= i < entries@.len() ==> {
                    let entry = #[trigger] entries@[i];
                    state@.symbols.has_details(entry.0) && entry.1@ == state@.symbols.names[entry.0]
                        && entry.2 == state@.symbols.metas[entry.0]
                },
            forall|i: int|
                0 <= i < ids.len() ==> state@.symbols.has_details(#[trigger] ids[i])
                    && out@[i].symbol@ == state@.symbols.names[ids[i]] && out@[i].meta
                    == state@.symbols.metas[ids[i]],
            forall|i: int|
                0 <= i < ids.len() ==> comes_from(entries@, k as int, #[trigger] ids[i]),
            forall|e: int| 0 <= e < k ==> ids.contains((#[trigger] entries@[e]).0),
    {
        let info = SymbolInfo::from_catalog(entries[k].1.clone(), entries[k].2);
        let ghost before = ids;
        let ghost old_out = out@;
        let ghost id = entries@[k as int].0;
        let at = insert_by_name(&mut out, info);
        proof {
            ids = before.insert(at as int, id);
            assert(!before.contains(id)) by {
                if before.contains(id) {
                    let i = choose|i: int| 0 <= i < before.len() && before[i] == id;
                    let e = choose|e: int| 0 <= e < k && (#[trigger] entries@[e]).0 == before[i];
                    assert(entries@[e].0 != entries@[k as int].0);
                }
            }
            assert forall|i: int, j: int|
                0 <= i < ids.len() && 0 <= j < ids.len() && i != j implies ids[i] != ids[j] by {
                let p = if i < at {
                    i
                } else {
                    i - 1
                };
                let q = if j < at {
                    j
                } else {
                    j - 1
                };
                if i == at {
                    assert(before.contains(before[q]));
                } else if j == at {
                    assert(before.contains(before[p]));
                } else {
                    assert(before[p] != before[q]);
                }
            }
            assert forall|i: int| 0 <= i < ids.len() implies state@.symbols.has_details(
                #[trigger] ids[i],
            ) && out@[i].symbol@ == state@.symbols.names[ids[i]] && out@[i].meta
                == state@.symbols.metas[ids[i]] by {
                if i < at {
                    assert(ids[i] == before[i] && out@[i] == old_out[i]);
                } else if i > at {
                    assert(ids[i] == before[i - 1] && out@[i] == old_out[i - 1]);
                }
            }
            assert forall|i: int| 0 <= i < ids.len() implies comes_from(
                entries@,
                k + 1,
                #[trigger] ids[i],
            ) by {
                if i == at {
                    assert(entries@[k as int].0 == ids[i]);
                } else {
                    let p = if i < at {
                        i
                    } else {
                        i - 1
                    };
                    let e = choose|e: int| 0 <= e < k && (#[trigger] entries@[e]).0 == before[p];
                    assert(entries@[e].0 == ids[i]);
                }
            }
            assert forall|e: int| 0 <= e < k + 1 implies ids.contains((#[trigger] entries@[e]).0) by {
                if e == k {
                    assert(ids[at as int] == id);
                } else {
                    let i = choose|i: int| 0 <= i < before.len() && before[i] == entries@[e].0;
                    if i < at {
                        assert(ids[i] == entries@[e].0);
                    } else {
                        assert(ids[i + 1] == entries@[e].0);
                    }
                }
            }
        }
    }
    assert forall|id: i64| #[trigger] state@.symbols.has_details(id) implies ids.contains(id) by {
        let e = choose|e: int| 0 <= e < entries@.len() && (#[trigger] entries@[e]).0 == id;
        assert(ids.contains(entries@[e].0));
    }
    assert(lists(state@.symbols, ids, out@));
    out
}

/// The listed symbols by name.
pub open spec fn name_views(list: Seq<SymbolInfo>) -> Seq<(Seq<char>, SymbolMeta)> {
    Seq::new(list.len(), |i: int| (list[i].symbol@, list[i].meta))
}

/// Whether no two symbols with both a name and metadata have the same name.
pub open spec fn names_differ(catalog: symbols::CatalogView) -> bool {
    forall|a: i64, b: i64| #[trigger]
        catalog.has_details(a) && #[trigger] catalog.has_details(b) && catalog.names[a]
            == catalog.names[b] ==> a == b
}

proof fn lemma_listing(catalog: symbols::CatalogView, ids: Seq<i64>, list: Seq<SymbolInfo>)
    requires
        names_differ(catalog),
        by_name(list),
        lists(catalog, ids, list),
    ensures
        named::ordered(name_views(list)),
        forall|id: i64| #[trigger]
            catalog.has_details(id) ==> named::entries(name_views(list)).contains_key(
                catalog.names[id],
            ) && named::entries(name_views(list))[catalog.names[id]] == catalog.metas[id],
        forall|name: Seq<char>| #[trigger]
            named::entries(name_views(list)).contains_key(name) ==> exists|id: i64| #[trigger]
                catalog.has_details(id) && catalog.names[id] == name,
{
    let views = name_views(list);
    assert forall|i: int, j: int| 0 <= i < j < views.len() implies text::precedes(
        (#[trigger] views[i]).0,
        (#[trigger] views[j]).0,
    ) by {
        assert(!text::precedes(list[j].symbol@, list[i].symbol@));
        text::lemma_precedes_total(list[i].symbol@, list[j].symbol@);
        assert(ids[i] != ids[j]);
        assert(catalog.has_details(ids[i]) && catalog.has_details(ids[j]));
    }
    named::lemma_entries(views);
    assert forall|id: i64| #[trigger] catalog.has_details(id) implies named::entries(
        views,
    ).contains_key(catalog.names[id]) && named::entries(views)[catalog.names[id]]
        == catalog.metas[id] by {
        assert(ids.contains(id));
        let i = choose|i: int| 0 <= i < ids.len() && ids[i] == id;
        assert(views[i].0 == catalog.names[ids[i]]);
    }
    assert forall|name: Seq<char>| #[trigger] named::entries(views).contains_key(name) implies exists|
        id: i64,
    | #[trigger] catalog.has_details(id) && catalog.names[id] == name by {
        let i = choose|i: int| 0 <= i < views.len() && (#[trigger] views[i]).0 == name;
        assert(catalog.has_details(ids[i]));
    }
}

/// The answer is the same each time, whatever the order in which the catalog
/// is walked, where no two of the symbols have the same name.
pub proof fn law_answer_is_the_same_each_time(
    catalog: symbols::CatalogView,
    ids: Seq<i64>,
    list: Seq<SymbolInfo>,
    other_ids: Seq<i64>,
    other: Seq<SymbolInfo>,
)
    requires
        names_differ(catalog),
        by_name(list),
        lists(catalog, ids, list),
        by_name(other),
        lists(catalog, other_ids, other),
    ensures
        name_views(list) == name_views(other),
{
    lemma_listing(catalog, ids, list);
    lemma_listing(catalog, other_ids, other);
    let a = named::entries(name_views(list));
    let b = named::entries(name_views(other));
    assert forall|name: Seq<char>| #[trigger] a.contains_key(name) <==> b.contains_key(name) by {
        if a.contains_key(name) {
            let id = choose|id: i64| #[trigger]
                catalog.has_details(id) && catalog.names[id] == name;
            assert(catalog.has_details(id));
        }
        if b.contains_key(name) {
            let id = choose|id: i64| #[trigger]
                catalog.has_details(id) && catalog.names[id] == name;
            assert(catalog.has_details(id));
        }
    }
    assert forall|name: Seq<char>| #[trigger] a.contains_key(name) implies a[name] == b[name] by {
        let id = choose|id: i64| #[trigger] catalog.has_details(id) && catalog.names[id] == name;
        assert(catalog.has_details(id));
    }
    assert(a =~= b);
    named::law_order_determines_the_list(name_views(list), name_views(other));
}

/// A symbol that has both a name and metadata is listed, with both.
pub proof fn law_symbol_is_listed(
    catalog: symbols::CatalogView,
    ids: Seq<i64>,
    list: Seq<SymbolInfo>,
    id: i64,
) -> (i: int)
    requires
        lists(catalog, ids, list),
        catalog.names.contains_key(id),
        catalog.metas.contains_key(id),
    ensures
        0 <= i < list.len(),
        list[i].symbol@ == catalog.names[id],
        list[i].meta == catalog.metas[id],
{
    assert(catalog.has_details(id));
    assert(ids.contains(id));
    choose|i: int| 0 <= i < ids.len() && ids[i] == id
}

/// A listed symbol is one that has both a name and metadata, and no symbol is
/// listed twice.
pub proof fn law_listed_symbol_has_details(
    catalog: symbols::CatalogView,
    ids: Seq<i64>,
    list: Seq<SymbolInfo>,
    i: int,
    j: int,
)
    requires
        lists(catalog, ids, list),
        0 <= i < list.len(),
        0 <= j < list.len(),
    ensures
        catalog.names.contains_key(ids[i]) && catalog.metas.contains_key(ids[i]),
        list[i].symbol@ == catalog.names[ids[i]],
        list[i].meta == catalog.metas[ids[i]],
        ids[i] == ids[j] ==> i == j,
{
    assert(catalog.has_details(ids[i]));
}

/// The list is in the order of the names: where two names differ for the
/// first time, the earlier entry has the smaller character, or none.
pub proof fn law_listed_by_name(list: Seq<SymbolInfo>, i: int, j: int, k: int)
    requires
        by_name(list),
        0 <= i < j < list.len(),
        0 <= k <= list[i].symbol@.len(),
        k <= list[j].symbol@.len(),
        list[i].symbol@.take(k) == list[j].symbol@.take(k),
        k < list[j].symbol@.len(),
        k < list[i].symbol@.len() ==> list[i].symbol@[k] != list[j].symbol@[k],
    ensures
        k == list[i].symbol@.len() || list[i].symbol@[k] < list[j].symbol@[k],
{
    if k < list[i].symbol@.len() && list[j].symbol@[k] < list[i].symbol@[k] {
        text::law_order_of_texts(list[j].symbol@, list[i].symbol@, k);
    }
}

} // verus!
