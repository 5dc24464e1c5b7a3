use saal::catalog::{Catalog, CatalogError, Ident};
use saal::enums::{DuplicateKeyMode, KeyMode, KeyOrder};

fn ident(id: u64, fingerprint: u64) -> Ident {
    Ident { id, fingerprint }
}

#[test]
fn duplicate_refused_under_return_zero() {
    let mut c: Catalog<&str> = Catalog::new();
    let k = c.insert(ident(7, 1), "first", KeyMode::NoDuplicates, DuplicateKeyMode::ReturnZero);
    assert_eq!(k, Ok(1));
    let again = c.insert(ident(7, 1), "second", KeyMode::NoDuplicates, DuplicateKeyMode::ReturnZero);
    assert_eq!(again, Err(CatalogError::DuplicateKey));
    assert_eq!(c.count(), 1);
    assert_eq!(c.get(1), Ok(&"first"));
}

#[test]
fn duplicate_overwrites_under_return_key() {
    let mut c: Catalog<&str> = Catalog::new();
    let k = c.insert(ident(7, 1), "first", KeyMode::NoDuplicates, DuplicateKeyMode::ReturnKey).unwrap();
    let k2 = c.insert(ident(7, 1), "second", KeyMode::NoDuplicates, DuplicateKeyMode::ReturnKey).unwrap();
    assert_eq!(k, k2);
    assert_eq!(c.count(), 1);
    assert_eq!(c.get(k), Ok(&"second"));
}

#[test]
fn direct_access_mode_keeps_duplicates() {
    let mut c: Catalog<u32> = Catalog::new();
    let a = c.insert(ident(7, 1), 10, KeyMode::DirectMemoryAccess, DuplicateKeyMode::ReturnZero);
    let b = c.insert(ident(7, 1), 20, KeyMode::DirectMemoryAccess, DuplicateKeyMode::ReturnZero);
    assert_eq!((a, b), (Ok(1), Ok(2)));
    assert_eq!(c.count(), 2);
}

#[test]
fn clear_leaves_nothing() {
    let mut c: Catalog<u32> = Catalog::new();
    for i in 0..5u64 {
        c.insert(ident(i, 0), i as u32, KeyMode::NoDuplicates, DuplicateKeyMode::ReturnZero).unwrap();
    }
    c.remove(2);
    c.clear();
    assert_eq!(c.count(), 0);
    assert!(c.keys(KeyOrder::Ascending).is_empty());
    c.clear();
    assert_eq!(c.count(), 0);
    let k = c.insert(ident(9, 0), 9, KeyMode::NoDuplicates, DuplicateKeyMode::ReturnZero);
    assert_eq!(k, Ok(6));
}

#[test]
fn ascending_and_descending_are_reverse() {
    let mut c: Catalog<u32> = Catalog::new();
    for i in 0..4u64 {
        c.insert(ident(i, 0), 0, KeyMode::NoDuplicates, DuplicateKeyMode::ReturnZero).unwrap();
    }
    let asc = c.keys(KeyOrder::Ascending);
    let mut desc = c.keys(KeyOrder::Descending);
    assert_eq!(asc, vec![1, 2, 3, 4]);
    desc.reverse();
    assert_eq!(desc, asc);
    let mut fastest = c.keys(KeyOrder::Fastest);
    fastest.sort();
    assert_eq!(fastest, asc);
}

#[test]
fn load_time_order_survives_removals() {
    let mut c: Catalog<u32> = Catalog::new();
    let a = c.insert(ident(1, 0), 1, KeyMode::NoDuplicates, DuplicateKeyMode::ReturnZero).unwrap();
    let b = c.insert(ident(2, 0), 2, KeyMode::NoDuplicates, DuplicateKeyMode::ReturnZero).unwrap();
    c.remove(a);
    let d = c.insert(ident(3, 0), 3, KeyMode::NoDuplicates, DuplicateKeyMode::ReturnZero).unwrap();
    let e = c.insert(ident(1, 0), 4, KeyMode::NoDuplicates, DuplicateKeyMode::ReturnZero).unwrap();
    c.remove(d);
    let f = c.insert(ident(5, 0), 5, KeyMode::NoDuplicates, DuplicateKeyMode::ReturnZero).unwrap();
    assert_eq!(c.keys(KeyOrder::LoadTime), vec![b, e, f]);
    assert_eq!(c.keys(KeyOrder::LoadTime), vec![2, 4, 5]);
}

#[test]
fn removing_absent_key_changes_nothing() {
    let mut c: Catalog<u32> = Catalog::new();
    c.insert(ident(1, 0), 1, KeyMode::NoDuplicates, DuplicateKeyMode::ReturnZero).unwrap();
    c.remove(99);
    c.remove(-3);
    assert_eq!(c.count(), 1);
    assert_eq!(c.keys(KeyOrder::Ascending), vec![1]);
}

#[test]
fn lookup_of_absent_key_fails() {
    let mut c: Catalog<u32> = Catalog::new();
    assert_eq!(c.get(1), Err(CatalogError::NotFound));
    let k = c.insert(ident(1, 0), 11, KeyMode::NoDuplicates, DuplicateKeyMode::ReturnZero).unwrap();
    assert!(c.contains(k));
    c.remove(k);
    assert!(!c.contains(k));
    assert_eq!(c.get(k), Err(CatalogError::NotFound));
}
