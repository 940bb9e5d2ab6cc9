use ctrader_bot::symbols::{SymbolCatalog, SymbolMeta};

fn fake_meta() -> SymbolMeta {
    SymbolMeta {
        digits: 5,
        pip_position: 4,
        min_volume: 100_000,
        step_volume: 10_000,
        max_volume: 10_000_000,
    }
}

#[test]
fn populate_and_lookup() {
    let mut cat = SymbolCatalog::new();
    cat.populate(&[(1, "EURUSD"), (2, "GBPUSD")]);
    assert_eq!(cat.name(1), "EURUSD");
    assert_eq!(cat.name(2), "GBPUSD");
    assert_eq!(cat.len(), 2);
}

#[test]
fn missing_lookup_returns_placeholder() {
    let cat = SymbolCatalog::new();
    assert_eq!(cat.name(99), "SYMBOL_99");
}

#[test]
fn reverse_lookup_roundtrips() {
    let mut cat = SymbolCatalog::new();
    cat.populate(&[(7, "XAUUSD")]);
    assert_eq!(cat.id("XAUUSD"), Some(7));
    assert!(cat.id("UNKNOWN").is_none());
}

#[test]
fn meta_round_trips() {
    let mut cat = SymbolCatalog::new();
    cat.populate(&[(1, "EURUSD")]);
    cat.put_meta(1, fake_meta());
    let m = cat.meta(1).unwrap();
    assert_eq!(m.digits, 5);
    assert_eq!(m.min_volume, 100_000);
}

#[test]
fn meta_missing_returns_none() {
    let mut cat = SymbolCatalog::new();
    cat.populate(&[(1, "EURUSD")]);
    assert!(cat.meta(1).is_none(), "no meta attached yet");
}

#[test]
fn entries_with_meta_skips_symbols_without_details() {
    let mut cat = SymbolCatalog::new();
    cat.populate(&[(1, "EURUSD"), (2, "GBPUSD"), (3, "XAUUSD")]);
    cat.put_meta(1, fake_meta());
    cat.put_meta(3, fake_meta());
    let mut names: Vec<String> = cat.entries_with_meta().into_iter().map(|(_, n, _)| n).collect();
    names.sort();
    assert_eq!(names, vec!["EURUSD", "XAUUSD"]);
}

#[test]
fn metadata_without_a_name_is_no_entry() {
    let mut cat = SymbolCatalog::new();
    cat.put_meta(9, fake_meta());
    assert!(cat.entries_with_meta().is_empty());
    assert!(cat.is_empty());
    assert!(cat.meta(9).is_some());
}

#[test]
fn later_entries_replace_earlier_ones() {
    let mut cat = SymbolCatalog::new();
    assert_eq!(cat.populate(&[(1, "OLD"), (1, "NEW"), (2, "NEW")]), 3);
    assert_eq!(cat.name(1), "NEW");
    assert_eq!(cat.id("NEW"), Some(2));
    assert_eq!(cat.id("OLD"), Some(1));
    assert_eq!(cat.len(), 2);
    assert!(!cat.is_empty());
}

#[test]
fn names_and_metadata_do_not_touch_each_other() {
    let mut cat = SymbolCatalog::new();
    cat.put_meta(1, fake_meta());
    cat.populate(&[(1, "EURUSD")]);
    assert_eq!(cat.meta(1).unwrap().max_volume, 10_000_000);
    let mut other = fake_meta();
    other.digits = 3;
    cat.put_meta(1, other);
    assert_eq!(cat.meta(1).unwrap().digits, 3);
    assert_eq!(cat.name(1), "EURUSD");
}

#[test]
fn placeholder_of_a_negative_id() {
    let cat = SymbolCatalog::new();
    assert_eq!(cat.name(-3), "SYMBOL_-3");
}

#[test]
fn a_miss_is_noted_once() {
    let mut cat = SymbolCatalog::new();
    assert_eq!(cat.name(99), "SYMBOL_99");
    assert!(cat.note_miss(99));
    assert_eq!(cat.name(99), "SYMBOL_99");
    assert!(!cat.note_miss(99));
    assert_eq!(cat.len(), 0);
    cat.populate(&[(1, "EURUSD")]);
    assert!(!cat.note_miss(1));
    assert_eq!(cat.note_misses(&vec![5, 1, 99, 5, 6]), vec![5, 6]);
}
