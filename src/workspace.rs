//! The key policy and the element-set catalog, held together in one value
//! that is changed only through exclusive access.

use vstd::prelude::*;

use crate::catalog::{Catalog, CatalogError, spec_insert};
use crate::enums::{DuplicateKeyMode, ElsetKeyMode, KeyMode, KeyOrder};
use crate::tle::{
    TleError, TleRecord, format_tle, line1_text, line2_text, parse_tle, tle_check, tle_decodes_to,
    tle_ident,
};

verus! {

/// How catalogs form keys and resolve duplicates.
#[derive(Debug, Clone, Copy, PartialEq, Eq, Structural)]
pub struct Policy {
    /// Key mode of every catalog but the element-set one.
    pub key_mode: KeyMode,
    /// Key mode of the element-set catalog.
    pub elset_key_mode: ElsetKeyMode,
    pub duplicate_key_mode: DuplicateKeyMode,
}

pub open spec fn default_policy() -> Policy {
    Policy {
        key_mode: KeyMode::NoDuplicates,
        elset_key_mode: ElsetKeyMode::NoDuplicates,
        duplicate_key_mode: DuplicateKeyMode::ReturnZero,
    }
}

/// The catalog key mode that an element-set key mode stands for.
pub open spec fn elset_as_key_mode(m: ElsetKeyMode) -> KeyMode {
    match m {
        ElsetKeyMode::NoDuplicates => KeyMode::NoDuplicates,
        ElsetKeyMode::DirectMemoryAccess => KeyMode::DirectMemoryAccess,
    }
}

impl Policy {
    /// No duplicates in any catalog, and duplicates refused.
    pub fn new() -> (p: Policy)
        ensures
            p == default_policy(),
    {
        Policy {
            key_mode: KeyMode::NoDuplicates,
            elset_key_mode: ElsetKeyMode::NoDuplicates,
            duplicate_key_mode: DuplicateKeyMode::ReturnZero,
        }
    }

    pub fn set_key_mode(&mut self, m: KeyMode)
        ensures
            *final(self) == (Policy { key_mode: m, ..*old(self) }),
    {
        self.key_mode = m;
    }

    pub fn set_elset_key_mode(&mut self, m: ElsetKeyMode)
        ensures
            *final(self) == (Policy { elset_key_mode: m, ..*old(self) }),
    {
        self.elset_key_mode = m;
    }

    pub fn set_duplicate_key_mode(&mut self, m: DuplicateKeyMode)
        ensures
            *final(self) == (Policy { duplicate_key_mode: m, ..*old(self) }),
    {
        self.duplicate_key_mode = m;
    }

    /// Puts both key modes back to their defaults; the duplicate-key mode stays.
    pub fn reset_key_mode(&mut self)
        ensures
            *final(self) == (Policy {
                key_mode: KeyMode::NoDuplicates,
                elset_key_mode: ElsetKeyMode::NoDuplicates,
                ..*old(self)
            }),
    {
        self.key_mode = KeyMode::NoDuplicates;
        self.elset_key_mode = ElsetKeyMode::NoDuplicates;
    }

    /// Puts the duplicate-key mode back to its default; the key modes stay.
    pub fn reset_duplicate_key_mode(&mut self)
        ensures
            *final(self) == (Policy { duplicate_key_mode: DuplicateKeyMode::ReturnZero, ..*old(self) }),
    {
        self.duplicate_key_mode = DuplicateKeyMode::ReturnZero;
    }

    /// The key mode the element-set catalog is run with.
    pub fn elset_mode(&self) -> (m: KeyMode)
        ensures
            m == elset_as_key_mode(self.elset_key_mode),
    {
        match self.elset_key_mode {
            ElsetKeyMode::NoDuplicates => KeyMode::NoDuplicates,
            ElsetKeyMode::DirectMemoryAccess => KeyMode::DirectMemoryAccess,
        }
    }
}

/// Why loading a record failed.
#[derive(Debug, Clone, Copy, PartialEq, Eq, Structural)]
pub enum LoadError {
    Tle(TleError),
    Catalog(CatalogError),
}

pub open spec fn lift_catalog(r: Result<i64, CatalogError>) -> Result<i64, LoadError> {
    match r {
        Ok(k) => Ok(k),
        Err(e) => Err(LoadError::Catalog(e)),
    }
}

/// The key policy and the element-set catalog.
pub struct Workspace {
    pub policy: Policy,
    pub tles: Catalog<TleRecord>,
}

impl Workspace {
    /// Each catalog is well formed and every stored element set fits its columns.
    pub open spec fn wf(&self) -> bool {
        &&& self.tles.wf()
        &&& forall|i: int| 0 <= i < self.tles@.len() ==> (#[trigger] self.tles@[i]).record.wf()
    }

    /// Empty catalogs and the default policy.
    pub fn new() -> (w: Workspace)
        ensures
            w.wf(),
            w.policy == default_policy(),
            w.tles@.len() == 0,
    {
        Workspace { policy: Policy::new(), tles: Catalog::new() }
    }

    /// Parses a line pair and inserts the element set under the policy's
    /// element-set key mode and duplicate-key mode.
    pub fn load_tle(&mut self, line1: &[u8], line2: &[u8]) -> (r: Result<i64, LoadError>)
        requires
            old(self).wf(),
        ensures
            final(self).wf(),
            final(self).policy == old(self).policy,
            match tle_check(line1@, line2@) {
                Err(e) => {
                    &&& r == Err::<i64, LoadError>(LoadError::Tle(e))
                    &&& final(self).tles@ == old(self).tles@
                    &&& final(self).tles.spec_next_key() == old(self).tles.spec_next_key()
                },
                Ok(_) => exists|q: TleRecord|
                    {
                        &&& #[trigger] tle_decodes_to(line1@, line2@, q)
                        &&& q.wf()
                        &&& spec_insert(
                            old(self).tles@,
                            old(self).tles.spec_next_key(),
                            tle_ident(q),
                            q,
                            elset_as_key_mode(old(self).policy.elset_key_mode),
                            old(self).policy.duplicate_key_mode,
                        ).entries == final(self).tles@
                        &&& spec_insert(
                            old(self).tles@,
                            old(self).tles.spec_next_key(),
                            tle_ident(q),
                            q,
                            elset_as_key_mode(old(self).policy.elset_key_mode),
                            old(self).policy.duplicate_key_mode,
                        ).next_key == final(self).tles.spec_next_key()
                        &&& lift_catalog(
                            spec_insert(
                                old(self).tles@,
                                old(self).tles.spec_next_key(),
                                tle_ident(q),
                                q,
                                elset_as_key_mode(old(self).policy.elset_key_mode),
                                old(self).policy.duplicate_key_mode,
                            ).result,
                        ) == r
                    },
            },
    {
        match parse_tle(line1, line2) {
            Err(e) => Err(LoadError::Tle(e)),
            Ok(p) => {
                let ident = p.record.ident();
                let ghost q = p.record;
                let mode = self.policy.elset_mode();
                let res = self.tles.insert(ident, p.record, mode, self.policy.duplicate_key_mode);
                proof {
                    assert forall|i: int| 0 <= i < self.tles@.len() implies (
                    #[trigger] self.tles@[i]).record.wf() by {
                        crate::catalog::lemma_find_ident_range(old(self).tles@, ident);
                    }
                    assert(tle_decodes_to(line1@, line2@, q));
                }
                match res {
                    Ok(k) => Ok(k),
                    Err(e) => Err(LoadError::Catalog(e)),
                }
            },
        }
    }

    /// The canonical lines of the element set under `key`.
    pub fn get_tle_lines(&self, key: i64) -> (r: Result<(Vec<u8>, Vec<u8>), CatalogError>)
        requires
            self.wf(),
        ensures
            r is Err <==> !crate::catalog::keys_of(self.tles@).contains(key),
            r is Err ==> r == Err::<(Vec<u8>, Vec<u8>), CatalogError>(CatalogError::NotFound),
            r matches Ok(l) ==> ({
                let rec = self.tles@[crate::catalog::find_key(self.tles@, key)].record;
                l.0@ == line1_text(rec) && l.1@ == line2_text(rec)
            }),
    {
        proof {
            crate::catalog::lemma_find_key_range(self.tles@, key);
        }
        match self.tles.get(key) {
            Ok(rec) => Ok(format_tle(rec)),
            Err(e) => Err(e),
        }
    }

    /// Removes the element set under `key`, if any.
    pub fn remove_tle(&mut self, key: i64)
        requires
            old(self).wf(),
        ensures
            final(self).wf(),
            final(self).policy == old(self).policy,
            final(self).tles@ == crate::catalog::without_key(old(self).tles@, key),
    {
        proof {
            crate::catalog::lemma_find_key_range(old(self).tles@, key);
        }
        self.tles.remove(key);
        proof {
            let s = old(self).tles@;
            let k = crate::catalog::find_key(s, key);
            assert forall|i: int| 0 <= i < self.tles@.len() implies (
            #[trigger] self.tles@[i]).record.wf() by {
                if k >= 0 && i >= k {
                    assert(self.tles@[i] == s[i + 1]);
                }
            }
        }
    }

    /// Removes every element set.
    pub fn clear_tles(&mut self)
        requires
            old(self).wf(),
        ensures
            final(self).wf(),
            final(self).policy == old(self).policy,
            final(self).tles@.len() == 0,
    {
        self.tles.clear();
    }

    pub fn tle_count(&self) -> (n: usize)
        ensures
            n == self.tles@.len(),
    {
        self.tles.count()
    }

    pub fn tle_keys(&self, order: KeyOrder) -> (k: Vec<i64>)
        requires
            self.wf(),
        ensures
            k@ == crate::catalog::listing(self.tles@, order),
    {
        self.tles.keys(order)
    }
}

/// Exclusive access to a workspace for a compound operation (set a policy,
/// insert, read back). While the handle lives nothing else can reach the
/// workspace; what is done through the handle is what the workspace holds
/// afterwards.
pub fn lock(ws: &mut Workspace) -> (h: &mut Workspace)
    ensures
        *h == *old(ws),
        *final(ws) == *final(h),
{
    ws
}

} // verus!
