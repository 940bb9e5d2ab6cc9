//! The symbol catalog: symbol id to name and back, and the trading metadata
//! of the symbols whose details were fetched.
//!
//! The catalog is filled in two passes. [`SymbolCatalog::populate`] takes the
//! list of ids and names; [`SymbolCatalog::put_meta`] takes the details of
//! one symbol. A lookup by id always gives a name: an id that is not in the
//! catalog is rendered as `SYMBOL_<id>`. [`SymbolCatalog::note_miss`] tells the
//! first such lookup of an id from the later ones, so that it is reported once.

use dashmap::DashMap;
use vstd::prelude::*;

use crate::text::{self, concat2, i64_text};

verus! {

/// Trading metadata of a symbol, in the broker's raw units.
#[derive(Clone, Copy, Debug, PartialEq, Eq, Structural)]
pub struct SymbolMeta {
    /// Price display precision.
    pub digits: u32,
    /// Which decimal is the pip.
    pub pip_position: u32,
    /// Smallest order volume, in hundredths of the base asset unit.
    pub min_volume: i64,
    /// Volume tick, in hundredths of the base asset unit.
    pub step_volume: i64,
    /// Largest order volume, in hundredths of the base asset unit.
    pub max_volume: i64,
}

/// Metadata as a plain tuple: digits, pip position, and the smallest, step
/// and largest volume.
pub type MetaRow = (u32, u32, i64, i64, i64);

impl SymbolMeta {
    pub open spec fn of_row(row: MetaRow) -> SymbolMeta {
        SymbolMeta {
            digits: row.0,
            pip_position: row.1,
            min_volume: row.2,
            step_volume: row.3,
            max_volume: row.4,
        }
    }

    pub open spec fn row(self) -> MetaRow {
        (self.digits, self.pip_position, self.min_volume, self.step_volume, self.max_volume)
    }

    fn from_row(row: MetaRow) -> (meta: Self)
        ensures
            meta == SymbolMeta::of_row(row),
    {
        SymbolMeta {
            digits: row.0,
            pip_position: row.1,
            min_volume: row.2,
            step_volume: row.3,
            max_volume: row.4,
        }
    }

    fn to_row(self) -> (row: MetaRow)
        ensures
            row == self.row(),
    {
        (self.digits, self.pip_position, self.min_volume, self.step_volume, self.max_volume)
    }
}

// -------------------------------------------------------- concurrent maps

/// The concurrent hash map of the `dashmap` crate.
#[verifier::external_type_specification]
#[verifier::external_body]
#[verifier::reject_recursive_types(K)]
#[verifier::reject_recursive_types(V)]
#[verifier::reject_recursive_types(S)]
pub struct ExDashMap<K, V, S>(dashmap::DashMap<K, V, S>);

/// The entries of a map from symbol ids to names.
pub uninterp spec fn name_entries(map: DashMap<i64, String>) -> Map<i64, Seq<char>>;

/// The entries of a map from symbol names to ids.
pub uninterp spec fn id_entries(map: DashMap<String, i64>) -> Map<Seq<char>, i64>;

/// The entries of a map from symbol ids to metadata.
pub uninterp spec fn meta_entries(map: DashMap<i64, MetaRow>) -> Map<i64, MetaRow>;

/// `DashMap::new` makes a map without entries.
#[verifier::external_body]
fn new_names() -> (made: DashMap<i64, String>)
    ensures
        name_entries(made) == (Map::<i64, Seq<char>>::empty()),
{
    DashMap::new()
}

/// `DashMap::new` makes a map without entries.
#[verifier::external_body]
fn new_ids() -> (made: DashMap<String, i64>)
    ensures
        id_entries(made) == (Map::<Seq<char>, i64>::empty()),
{
    DashMap::new()
}

/// `DashMap::new` makes a map without entries.
#[verifier::external_body]
fn new_metas() -> (made: DashMap<i64, MetaRow>)
    ensures
        meta_entries(made) == (Map::<i64, MetaRow>::empty()),
{
    DashMap::new()
}

/// `DashMap::insert` adds the entry, or replaces the value under the key.
#[verifier::external_body]
fn insert_name(map: &mut DashMap<i64, String>, id: i64, name: String)
    ensures
        name_entries(*final(map)) == name_entries(*old(map)).insert(id, name@),
{
    map.insert(id, name);
}

/// `DashMap::insert` adds the entry, or replaces the value under the key.
#[verifier::external_body]
fn insert_id(map: &mut DashMap<String, i64>, name: String, id: i64)
    ensures
        id_entries(*final(map)) == id_entries(*old(map)).insert(name@, id),
{
    map.insert(name, id);
}

/// `DashMap::insert` adds the entry, or replaces the value under the key.
#[verifier::external_body]
fn insert_meta(map: &mut DashMap<i64, MetaRow>, id: i64, row: MetaRow)
    ensures
        meta_entries(*final(map)) == meta_entries(*old(map)).insert(id, row),
{
    map.insert(id, row);
}

/// `DashMap::get` finds the value under the key, if there is one.
#[verifier::external_body]
fn get_name(map: &DashMap<i64, String>, id: i64) -> (r: Option<String>)
    ensures
        match r {
            Some(name) => name_entries(*map).contains_key(id) && name@ == name_entries(*map)[id],
            None => !name_entries(*map).contains_key(id),
        },
{
    match map.get(&id) {
        Some(entry) => Some(entry.value().clone()),
        None => None,
    }
}

/// `DashMap::get` finds the value under the key, if there is one.
#[verifier::external_body]
fn get_id(map: &DashMap<String, i64>, name: &str) -> (r: Option<i64>)
    ensures
        match r {
            Some(id) => id_entries(*map).contains_key(name@) && id == id_entries(*map)[name@],
            None => !id_entries(*map).contains_key(name@),
        },
{
    match map.get(name) {
        Some(entry) => Some(*entry.value()),
        None => None,
    }
}

/// `DashMap::get` finds the value under the key, if there is one.
#[verifier::external_body]
fn get_meta(map: &DashMap<i64, MetaRow>, id: i64) -> (r: Option<MetaRow>)
    ensures
        match r {
            Some(row) => meta_entries(*map).contains_key(id) && row == meta_entries(*map)[id],
            None => !meta_entries(*map).contains_key(id),
        },
{
    match map.get(&id) {
        Some(entry) => Some(*entry.value()),
        None => None,
    }
}

/// `DashMap::len` is the number of entries.
#[verifier::external_body]
fn count_names(map: &DashMap<i64, String>) -> (n: usize)
    ensures
        n == name_entries(*map).len(),
{
    map.len()
}

/// `DashMap::iter` walks over each entry once, in an order that is left open.
#[verifier::external_body]
fn list_metas(map: &DashMap<i64, MetaRow>) -> (rows: Vec<(i64, MetaRow)>)
    ensures
        forall|i: int, j: int|
            0 <= i < j < rows@.len() ==> (#[trigger] rows@[i]).0 != (#[trigger] rows@[j]).0,
        forall|i: int|
            0 <= i < rows@.len() ==> meta_entries(*map).contains_key((#[trigger] rows@[i]).0)
                && meta_entries(*map)[rows@[i].0] == rows@[i].1,
        forall|id: i64| #[trigger]
            meta_entries(*map).contains_key(id) ==> exists|i: int|
                0 <= i < rows@.len() && (#[trigger] rows@[i]).0 == id,
{
    map.iter().map(|entry| (*entry.key(), *entry.value())).collect()
}

// ------------------------------------------------------------- the catalog

/// What a catalog knows.
pub struct CatalogView {
    /// Names by id.
    pub names: Map<i64, Seq<char>>,
    /// Ids by name.
    pub ids: Map<Seq<char>, i64>,
    /// Metadata by id.
    pub metas: Map<i64, SymbolMeta>,
    /// Ids without a name that were noted.
    pub missed: Set<i64>,
}

impl CatalogView {
    pub open spec fn empty() -> CatalogView {
        CatalogView {
            names: Map::empty(),
            ids: Map::empty(),
            metas: Map::empty(),
            missed: Set::empty(),
        }
    }

    /// The name of the symbol, or its placeholder.
    pub open spec fn name(self, id: i64) -> Seq<char> {
        if self.names.contains_key(id) {
            self.names[id]
        } else {
            "SYMBOL_"@ + text::int_text(id as int)
        }
    }

    /// The id of the symbol with exactly this name.
    pub open spec fn id(self, name: Seq<char>) -> Option<i64> {
        if self.ids.contains_key(name) {
            Some(self.ids[name])
        } else {
            None
        }
    }

    /// The catalog after one more pair of id and name.
    pub open spec fn with_symbol(self, id: i64, name: Seq<char>) -> CatalogView {
        CatalogView {
            names: self.names.insert(id, name),
            ids: self.ids.insert(name, id),
            ..self
        }
    }

    /// The catalog after the pairs, taken in order.
    pub open spec fn with_symbols(self, entries: Seq<(i64, Seq<char>)>) -> CatalogView
        decreases entries.len(),
    {
        if entries.len() == 0 {
            self
        } else {
            self.with_symbols(entries.drop_last()).with_symbol(entries.last().0, entries.last().1)
        }
    }

    /// The catalog with the metadata of one symbol added or replaced.
    pub open spec fn with_meta(self, id: i64, meta: SymbolMeta) -> CatalogView {
        CatalogView { metas: self.metas.insert(id, meta), ..self }
    }

    /// Whether the symbol has no name and was not noted for that yet.
    pub open spec fn is_first_miss(self, id: i64) -> bool {
        !self.names.contains_key(id) && !self.missed.contains(id)
    }

    /// The catalog after a lookup of the symbol was noted.
    pub open spec fn noting_one(self, id: i64) -> CatalogView {
        if self.is_first_miss(id) {
            CatalogView { missed: self.missed.insert(id), ..self }
        } else {
            self
        }
    }

    /// The catalog after lookups of the symbols were noted, in order.
    pub open spec fn noting(self, ids: Seq<i64>) -> CatalogView
        decreases ids.len(),
    {
        if ids.len() == 0 {
            self
        } else {
            self.noting(ids.drop_last()).noting_one(ids.last())
        }
    }

    /// The symbols among these whose lookup is a first miss, in order.
    pub open spec fn first_misses(self, ids: Seq<i64>) -> Seq<i64>
        decreases ids.len(),
    {
        if ids.len() == 0 {
            Seq::empty()
        } else {
            let before = self.first_misses(ids.drop_last());
            if self.noting(ids.drop_last()).is_first_miss(ids.last()) {
                before.push(ids.last())
            } else {
                before
            }
        }
    }

    /// Whether the symbol has both a name and metadata.
    pub open spec fn has_details(self, id: i64) -> bool {
        self.names.contains_key(id) && self.metas.contains_key(id)
    }
}

/// What a list of ids and names reads as.
pub open spec fn pairs(entries: Seq<(i64, &str)>) -> Seq<(i64, Seq<char>)> {
    Seq::new(entries.len(), |i: int| (entries[i].0, entries[i].1@))
}

pub struct SymbolCatalog {
    map: DashMap<i64, String>,
    reverse: DashMap<String, i64>,
    meta: DashMap<i64, MetaRow>,
    missed: Vec<i64>,
}

impl SymbolCatalog {
    pub closed spec fn view(&self) -> CatalogView {
        CatalogView {
            names: name_entries(self.map),
            ids: id_entries(self.reverse),
            metas: meta_entries(self.meta).map_values(|row: MetaRow| SymbolMeta::of_row(row)),
            missed: self.missed@.to_set(),
        }
    }

    /// A catalog without symbols.
    pub fn new() -> (catalog: Self)
        ensures
            catalog@ == CatalogView::empty(),
    {
        let catalog = SymbolCatalog {
            map: new_names(),
            reverse: new_ids(),
            meta: new_metas(),
            missed: Vec::new(),
        };
        assert(catalog@.metas =~= Map::empty());
        assert(catalog@.missed =~= Set::empty());
        catalog
    }

    /// Adds the pairs of id and name, in order, and says how many there were.
    /// The metadata is not touched.
    pub fn populate(&mut self, entries: &[(i64, &str)]) -> (count: usize)
        ensures
            final(self)@ == old(self)@.with_symbols(pairs(entries@)),
            count == entries@.len(),
    {
        let ghost all = pairs(entries@);
        let ghost start = self@;
        let mut count: usize = 0;
        while count < entries.len()
            invariant
                count <= entries@.len(),
                all == pairs(entries@),
                self@ == start.with_symbols(all.take(count as int)),
            decreases entries@.len() - count,
        {
            let (id, name) = entries[count];
            assert(all.take(count + 1).drop_last() =~= all.take(count as int));
            insert_name(&mut self.map, id, name.to_owned());
            insert_id(&mut self.reverse, name.to_owned(), id);
            count = count + 1;
        }
        assert(all.take(count as int) =~= all);
        count
    }

    /// Attaches the metadata of one symbol. A second call for the same id
    /// overwrites.
    pub fn put_meta(&mut self, id: i64, meta: SymbolMeta)
        ensures
            final(self)@ == old(self)@.with_meta(id, meta),
    {
        insert_meta(&mut self.meta, id, meta.to_row());
        assert(self@.metas =~= old(self)@.metas.insert(id, meta));
    }

    /// The id of the symbol with this name. The match is exact.
    pub fn id(&self, name: &str) -> (r: Option<i64>)
        ensures
            r == self@.id(name@),
    {
        get_id(&self.reverse, name)
    }

    /// The name of the symbol, or `SYMBOL_<id>` where the catalog has none.
    pub fn name(&self, id: i64) -> (r: String)
        ensures
            r@ == self@.name(id),
    {
        match get_name(&self.map, id) {
            Some(name) => name,
            None => {
                let digits = i64_text(id);
                concat2("SYMBOL_", digits.as_str())
            },
        }
    }

    /// Notes a lookup of the symbol, and says whether it is the first one that
    /// finds no name.
    pub fn note_miss(&mut self, id: i64) -> (first: bool)
        ensures
            first == old(self)@.is_first_miss(id),
            final(self)@ == old(self)@.noting_one(id),
    {
        if get_name(&self.map, id).is_some() {
            return false;
        }
        for i in 0..self.missed.len()
            invariant
                *self == *old(self),
                forall|k: int| 0 <= k < i ==> self.missed@[k] != id,
        {
            if self.missed[i] == id {
                assert(self.missed@.contains(id));
                return false;
            }
        }
        self.missed.push(id);
        proof {
            let before = old(self).missed@;
            assert(!before.contains(id));
            assert forall|x: i64|
                self.missed@.to_set().contains(x) <==> before.to_set().insert(id).contains(x) by {
                if before.contains(x) {
                    let k = choose|k: int| 0 <= k < before.len() && before[k] == x;
                    assert(self.missed@[k] == x);
                }
                assert(self.missed@[before.len() as int] == id);
                if self.missed@.contains(x) {
                    let k = choose|k: int| 0 <= k < self.missed@.len() && self.missed@[k] == x;
                    if k < before.len() {
                        assert(before[k] == x);
                    }
                }
            }
            assert(self.missed@.to_set() =~= before.to_set().insert(id));
        }
        true
    }

    /// Notes lookups of the symbols, in order, and gives those that are the
    /// first to find no name.
    pub fn note_misses(&mut self, ids: &Vec<i64>) -> (first: Vec<i64>)
        ensures
            first@ == old(self)@.first_misses(ids@),
            final(self)@ == old(self)@.noting(ids@),
    {
        let mut first: Vec<i64> = Vec::new();
        for i in 0..ids.len()
            invariant
                first@ == old(self)@.first_misses(ids@.take(i as int)),
                self@ == old(self)@.noting(ids@.take(i as int)),
        {
            assert(ids@.take(i + 1).drop_last() =~= ids@.take(i as int));
            if self.note_miss(ids[i]) {
                first.push(ids[i]);
            }
        }
        assert(ids@.take(ids@.len() as int) =~= ids@);
        first
    }

    /// The metadata of a symbol, if its details were fetched.
    pub fn meta(&self, id: i64) -> (r: Option<SymbolMeta>)
        ensures
            match r {
                Some(meta) => self@.metas.contains_key(id) && meta == self@.metas[id],
                None => !self@.metas.contains_key(id),
            },
    {
        match get_meta(&self.meta, id) {
            Some(row) => Some(SymbolMeta::from_row(row)),
            None => None,
        }
    }

    /// Each symbol that has both a name and metadata, once. The order is left
    /// open.
    pub fn entries_with_meta(&self) -> (out: Vec<(i64, String, SymbolMeta)>)
        ensures
            forall|i: int, j: int|
                0 <= i < j < out@.len() ==> (#[trigger] out@[i]).0 != (#[trigger] out@[j]).0,
            forall|i: int|
                0 <= i < out@.len() ==> {
                    let entry = #[trigger] out@[i];
                    self@.has_details(entry.0) && entry.1@ == self@.names[entry.0] && entry.2
                        == self@.metas[entry.0]
                },
            forall|id: i64| #[trigger]
                self@.has_details(id) ==> exists|i: int|
                    0 <= i < out@.len() && (#[trigger] out@[i]).0 == id,
    {
        let rows = list_metas(&self.meta);
        let mut out: Vec<(i64, String, SymbolMeta)> = Vec::new();
        // For each entry of `out`, the row that it came from.
        let ghost mut from: Seq<int> = Seq::empty();
        for k in 0..rows.len()
            invariant
                forall|i: int|
                    0 <= i < rows@.len() ==> meta_entries(self.meta).contains_key(
                        (#[trigger] rows@[i]).0,
                    ) && meta_entries(self.meta)[rows@[i].0] == rows@[i].1,
                from.len() == out@.len(),
                forall|i: int|
                    0 <= i < from.len() ==> 0 <= (#[trigger] from[i]) < k && rows@[from[i]].0
                        == out@[i].0,
                forall|i: int, j: int|
                    0 <= i < j < from.len() ==> (#[trigger] from[i]) < (#[trigger] from[j]),
                forall|i: int|
                    0 <= i < out@.len() ==> {
                        let entry = #[trigger] out@[i];
                        self@.has_details(entry.0) && entry.1@ == self@.names[entry.0] && entry.2
                            == self@.metas[entry.0]
                    },
                forall|j: int|
                    0 <= j < k && self@.has_details((#[trigger] rows@[j]).0) ==> from.contains(j),
        {
            let (id, row) = rows[k];
            assert(rows@[k as int].0 == id);
            let ghost before = from;
            match get_name(&self.map, id) {
                Some(name) => {
                    out.push((id, name, SymbolMeta::from_row(row)));
                    proof {
                        from = from.push(k as int);
                        assert(from[before.len() as int] == k);
                        assert forall|j: int|
                            0 <= j < k + 1 && self@.has_details(
                                (#[trigger] rows@[j]).0,
                            ) implies from.contains(j) by {
                            if j < k {
                                let i = choose|i: int| 0 <= i < before.len() && before[i] == j;
                                assert(from[i] == j);
                            }
                        }
                    }
                },
                None => {},
            }
        }
        assert forall|i: int, j: int| 0 <= i < j < out@.len() implies (#[trigger] out@[i]).0 != (
        #[trigger] out@[j]).0 by {
            assert(from[i] < from[j]);
        }
        assert forall|id: i64| #[trigger] self@.has_details(id) implies exists|i: int|
            0 <= i < out@.len() && (#[trigger] out@[i]).0 == id by {
            assert(meta_entries(self.meta).contains_key(id));
            let j = choose|j: int| 0 <= j < rows@.len() && (#[trigger] rows@[j]).0 == id;
            assert(from.contains(j));
            let i = choose|i: int| 0 <= i < from.len() && from[i] == j;
            assert(out@[i].0 == id);
        }
        out
    }

    /// The number of symbols with a name.
    pub fn len(&self) -> (n: usize)
        ensures
            n == self@.names.len(),
    {
        count_names(&self.map)
    }

    pub fn is_empty(&self) -> (r: bool)
        ensures
            r == (self@.names.len() == 0),
    {
        self.len() == 0
    }
}

// -------------------------------------------------------------------- laws

/// A symbol can be looked up by id and by name once it was added, unless a
/// later pair of the same list gives its id another name or its name another
/// id.
pub proof fn law_lookup_round_trip(
    catalog: CatalogView,
    entries: Seq<(i64, Seq<char>)>,
    k: int,
)
    requires
        0 <= k < entries.len(),
        forall|j: int|
            k < j < entries.len() ==> (#[trigger] entries[j]).0 != entries[k].0 && entries[j].1
                != entries[k].1,
    ensures
        catalog.with_symbols(entries).name(entries[k].0) == entries[k].1,
        catalog.with_symbols(entries).id(entries[k].1) == Some(entries[k].0),
    decreases entries.len(),
{
    let n = entries.len() - 1;
    if k < n {
        let init = entries.drop_last();
        assert forall|j: int| k < j < init.len() implies (#[trigger] init[j]).0 != init[k].0
            && init[j].1 != init[k].1 by {
            assert(init[j] == entries[j]);
        }
        law_lookup_round_trip(catalog, init, k);
        let last = entries[n];
        assert(entries.last() == last);
        let before = catalog.with_symbols(init);
        assert(before.names.contains_key(entries[k].0) ==> before.with_symbol(
            last.0,
            last.1,
        ).names[entries[k].0] == before.names[entries[k].0]);
        lemma_lookup_stays(catalog, init, k);
    }
}

proof fn lemma_lookup_stays(catalog: CatalogView, entries: Seq<(i64, Seq<char>)>, k: int)
    requires
        0 <= k < entries.len(),
    ensures
        catalog.with_symbols(entries).names.contains_key(entries[k].0),
        catalog.with_symbols(entries).ids.contains_key(entries[k].1),
    decreases entries.len(),
{
    if k < entries.len() - 1 {
        lemma_lookup_stays(catalog, entries.drop_last(), k);
    }
}

/// Adding names leaves the metadata as it was, and adding metadata leaves the
/// names as they were.
pub proof fn law_names_and_metadata_are_apart(
    catalog: CatalogView,
    entries: Seq<(i64, Seq<char>)>,
    id: i64,
    meta: SymbolMeta,
)
    ensures
        catalog.with_symbols(entries).metas == catalog.metas,
        catalog.with_meta(id, meta).names == catalog.names,
        catalog.with_meta(id, meta).ids == catalog.ids,
    decreases entries.len(),
{
    if entries.len() > 0 {
        law_names_and_metadata_are_apart(catalog, entries.drop_last(), id, meta);
    }
}

/// Metadata that was attached is read back, and attaching it twice is the
/// same as attaching it once.
pub proof fn law_meta_round_trip(catalog: CatalogView, id: i64, meta: SymbolMeta, other: SymbolMeta)
    ensures
        catalog.with_meta(id, meta).metas.contains_key(id),
        catalog.with_meta(id, meta).metas[id] == meta,
        catalog.with_meta(id, other).with_meta(id, meta) == catalog.with_meta(id, meta),
{
    assert(catalog.metas.insert(id, other).insert(id, meta) =~= catalog.metas.insert(id, meta));
}

/// A symbol without a name is reported at its first lookup and at no later
/// one, and to note lookups changes nothing that a lookup gives.
pub proof fn law_misses_are_reported_once(catalog: CatalogView, ids: Seq<i64>, id: i64)
    requires
        !catalog.names.contains_key(id),
    ensures
        catalog.first_misses(ids).contains(id) <==> ids.contains(id) && !catalog.missed.contains(
            id,
        ),
        catalog.first_misses(ids).no_duplicates(),
        ids.contains(id) || catalog.missed.contains(id) <==> catalog.noting(ids).missed.contains(
            id,
        ),
        catalog.noting(ids).names == catalog.names,
        catalog.noting(ids).ids == catalog.ids,
        catalog.noting(ids).metas == catalog.metas,
        forall|i: int|
            0 <= i < catalog.first_misses(ids).len() ==> catalog.noting(ids).missed.contains(
                #[trigger] catalog.first_misses(ids)[i],
            ),
    decreases ids.len(),
{
    if ids.len() > 0 {
        let init = ids.drop_last();
        let last = ids[ids.len() - 1];
        law_misses_are_reported_once(catalog, init, id);
        let before = catalog.first_misses(init);
        let noted = catalog.noting(init);
        let after = catalog.first_misses(ids);
        assert forall|x: i64| ids.contains(x) <==> init.contains(x) || x == last by {
            if init.contains(x) {
                let k = choose|k: int| 0 <= k < init.len() && init[k] == x;
                assert(ids[k] == x);
            }
            if ids.contains(x) {
                let k = choose|k: int| 0 <= k < ids.len() && ids[k] == x;
                if k < init.len() {
                    assert(init[k] == x);
                }
            }
        }
        if noted.is_first_miss(last) {
            assert(after == before.push(last));
            assert forall|x: i64| after.contains(x) <==> before.contains(x) || x == last by {
                if before.contains(x) {
                    let k = choose|k: int| 0 <= k < before.len() && before[k] == x;
                    assert(after[k] == x);
                }
                assert(after[before.len() as int] == last);
                if after.contains(x) {
                    let k = choose|k: int| 0 <= k < after.len() && after[k] == x;
                    if k < before.len() {
                        assert(before[k] == x);
                    }
                }
            }
            assert forall|i: int, j: int|
                0 <= i < after.len() && 0 <= j < after.len() && i != j implies after[i]
                != after[j] by {
                if i < before.len() && j < before.len() {
                    assert(before[i] != before[j]);
                }
            }
        }
    }
}

/// A symbol is known by the name that was added last, and one that was never
/// named by a placeholder with its id. An exact name finds the id, and no
/// other name does.
pub proof fn law_names_and_placeholders(catalog: CatalogView, id: i64, name: Seq<char>, other: i64)
    ensures
        catalog.with_symbol(id, name).name(id) == name,
        catalog.with_symbol(id, name).id(name) == Some(id),
        other != id ==> catalog.with_symbol(id, name).name(other) == catalog.name(other),
        catalog.names.contains_key(id) ==> catalog.name(id) == catalog.names[id],
        !catalog.names.contains_key(id) ==> catalog.name(id) == "SYMBOL_"@ + text::int_text(
            id as int,
        ),
        catalog.id(name) is Some <==> catalog.ids.contains_key(name),
        catalog.id(name) matches Some(found) ==> found == catalog.ids[name],
        !CatalogView::empty().names.contains_key(id),
        !CatalogView::empty().ids.contains_key(name),
        !CatalogView::empty().metas.contains_key(id),
        !CatalogView::empty().missed.contains(id),
{
}

/// Adding names changes the names and the ids, and nothing else: the metadata
/// and the noted misses stay.
pub proof fn law_names_are_all(catalog: CatalogView, entries: Seq<(i64, Seq<char>)>)
    ensures
        catalog.with_symbols(entries).metas == catalog.metas,
        catalog.with_symbols(entries).missed == catalog.missed,
    decreases entries.len(),
{
    if entries.len() > 0 {
        law_names_are_all(catalog, entries.drop_last());
    }
}

/// Metadata of one symbol leaves that of every other as it was. It is kept
/// field for field.
pub proof fn law_other_metadata_stays(catalog: CatalogView, id: i64, meta: SymbolMeta, other: i64)
    requires
        other != id,
    ensures
        ({
            let after = catalog.with_meta(id, meta).metas;
            &&& after.contains_key(other) == catalog.metas.contains_key(other)
            &&& catalog.metas.contains_key(other) ==> after[other] == catalog.metas[other]
        }),
        catalog.with_meta(id, meta).missed == catalog.missed,
        SymbolMeta::of_row(meta.row()) == meta,
        catalog.with_meta(id, meta).has_details(id) <==> catalog.names.contains_key(id),
{
}

/// A symbol that has a name is never reported, and the lookups of a list are
/// those of its parts, one after the other.
pub proof fn law_named_symbols_are_not_reported(
    catalog: CatalogView,
    a: Seq<i64>,
    b: Seq<i64>,
    id: i64,
)
    ensures
        catalog.names.contains_key(id) ==> !catalog.first_misses(a).contains(id),
        catalog.noting(a + b) == catalog.noting(a).noting(b),
        catalog.first_misses(a + b) == catalog.first_misses(a) + catalog.noting(a).first_misses(b),
        catalog.noting(a).names == catalog.names,
    decreases a.len() + b.len(),
{
    if b.len() > 0 {
        law_named_symbols_are_not_reported(catalog, a, b.drop_last(), id);
        assert((a + b).drop_last() =~= a + b.drop_last());
        assert((a + b).last() == b.last());
        assert(catalog.first_misses(a + b) =~= catalog.first_misses(a) + catalog.noting(
            a,
        ).first_misses(b));
    } else {
        assert(a + b =~= a);
        assert(catalog.first_misses(a) + catalog.noting(a).first_misses(b)
            =~= catalog.first_misses(a));
        if a.len() > 0 {
            law_named_symbols_are_not_reported(catalog, a.drop_last(), Seq::empty(), id);
            let before = catalog.first_misses(a.drop_last());
            let after = catalog.first_misses(a);
            if catalog.names.contains_key(id) && after.contains(id) {
                let k = choose|k: int| 0 <= k < after.len() && after[k] == id;
                if k < before.len() {
                    assert(before[k] == id);
                }
            }
        }
    }
}

} // verus!
