use saal::catalog::CatalogError;
use saal::enums::{DuplicateKeyMode, ElsetKeyMode, KeyMode, KeyOrder};
use saal::tle::TleError;
use saal::workspace::{lock, LoadError, Policy, Workspace};

const ISS_1: &str = "1 25544U 98067A   08264.51782528 -.00002182  00000-0 -11606-4 0  2927";
const ISS_2: &str = "2 25544  51.6416 247.4627 0006703 130.5360 325.0288 15.72125391563537";
const ISS_1B: &str = "1 25544U 98067A   08264.51782528 -.00002182  00000-0 -11606-4 0  2938";

#[test]
fn policy_defaults_and_resets() {
    let mut p = Policy::new();
    assert_eq!(p.key_mode, KeyMode::NoDuplicates);
    assert_eq!(p.elset_key_mode, ElsetKeyMode::NoDuplicates);
    assert_eq!(p.duplicate_key_mode, DuplicateKeyMode::ReturnZero);
    p.set_key_mode(KeyMode::DirectMemoryAccess);
    p.set_elset_key_mode(ElsetKeyMode::DirectMemoryAccess);
    p.set_duplicate_key_mode(DuplicateKeyMode::ReturnKey);
    assert_eq!(p.elset_mode(), KeyMode::DirectMemoryAccess);
    p.reset_key_mode();
    assert_eq!(p.key_mode, KeyMode::NoDuplicates);
    assert_eq!(p.elset_key_mode, ElsetKeyMode::NoDuplicates);
    assert_eq!(p.duplicate_key_mode, DuplicateKeyMode::ReturnKey);
    p.reset_duplicate_key_mode();
    assert_eq!(p, Policy::new());
}

#[test]
fn load_and_read_back_element_set() {
    let mut ws = Workspace::new();
    let k = ws.load_tle(ISS_1.as_bytes(), ISS_2.as_bytes()).unwrap();
    assert_eq!(ws.tle_count(), 1);
    let (l1, l2) = ws.get_tle_lines(k).unwrap();
    assert_eq!(
        String::from_utf8(l1).unwrap(),
        "1 25544U 98067A   08264.51782528 -.00002182  00000+0 -11606-4 0  2926"
    );
    assert_eq!(String::from_utf8(l2).unwrap(), ISS_2);
    assert_eq!(ws.get_tle_lines(k + 1), Err(CatalogError::NotFound));
}

#[test]
fn duplicate_element_set_under_each_mode() {
    let mut ws = Workspace::new();
    let k = ws.load_tle(ISS_1.as_bytes(), ISS_2.as_bytes()).unwrap();
    let again = ws.load_tle(ISS_1B.as_bytes(), ISS_2.as_bytes());
    assert_eq!(again, Err(LoadError::Catalog(CatalogError::DuplicateKey)));
    assert_eq!(ws.tle_count(), 1);
    ws.policy.set_duplicate_key_mode(DuplicateKeyMode::ReturnKey);
    assert_eq!(ws.load_tle(ISS_1B.as_bytes(), ISS_2.as_bytes()), Ok(k));
    assert_eq!(ws.tle_count(), 1);
    let (l1, _) = ws.get_tle_lines(k).unwrap();
    assert_eq!(&l1[64..68], b" 293");
    ws.policy.set_elset_key_mode(ElsetKeyMode::DirectMemoryAccess);
    let k3 = ws.load_tle(ISS_1.as_bytes(), ISS_2.as_bytes()).unwrap();
    assert_ne!(k3, k);
    assert_eq!(ws.tle_count(), 2);
}

#[test]
fn malformed_lines_are_not_loaded() {
    let mut ws = Workspace::new();
    assert_eq!(
        ws.load_tle(&ISS_1.as_bytes()[..60], ISS_2.as_bytes()),
        Err(LoadError::Tle(TleError::WrongLength))
    );
    assert_eq!(ws.tle_count(), 0);
}

#[test]
fn workspace_clear_remove_and_keys() {
    let mut ws = Workspace::new();
    let k = ws.load_tle(ISS_1.as_bytes(), ISS_2.as_bytes()).unwrap();
    ws.remove_tle(k + 10);
    assert_eq!(ws.tle_count(), 1);
    assert_eq!(ws.tle_keys(KeyOrder::Descending), vec![k]);
    ws.remove_tle(k);
    assert_eq!(ws.tle_count(), 0);
    ws.load_tle(ISS_1.as_bytes(), ISS_2.as_bytes()).unwrap();
    ws.clear_tles();
    assert_eq!(ws.tle_count(), 0);
}

#[test]
fn lock_gives_exclusive_handle() {
    let mut ws = Workspace::new();
    {
        let h = lock(&mut ws);
        h.policy.set_duplicate_key_mode(DuplicateKeyMode::ReturnKey);
        h.load_tle(ISS_1.as_bytes(), ISS_2.as_bytes()).unwrap();
    }
    assert_eq!(ws.policy.duplicate_key_mode, DuplicateKeyMode::ReturnKey);
    assert_eq!(ws.tle_count(), 1);
}
