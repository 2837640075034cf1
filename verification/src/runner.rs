//! The migration runner: applies the catalog's pending steps in order.
//!
//! `run_model` is the mathematical semantics of one run: it walks the steps
//! in catalog order, skips every version the ledger already records,
//! executes the effect of each pending step, and records its version — or
//! stops at the first failing step, whose partial changes are never visible
//! (all-or-nothing per step). `apply_pending` is the executable runner,
//! proved to behave exactly as `run_model` says.

use vstd::prelude::*;

use crate::catalog::{catalog_wf, Catalog, MigrationStep};
use crate::domain::{LedgerEntry, StoreError};
use crate::store::{
    apply_effect, apply_effect_model, ledger_contains, ledger_has_version,
    lemma_apply_effect_model_wf, Store, StoreModel,
};

verus! {

/// The ledger record a step leaves behind.
pub open spec fn ledger_entry_of(step: MigrationStep) -> LedgerEntry {
    LedgerEntry { version: step.version, description: step.description }
}

/// What one run of the migration runner does to a store model, walking the
/// given steps in order: `Ok` with the final model and the number of steps
/// applied, or `Err` with the model as of the first failing step (every
/// earlier step stays applied) and that step's error.
pub open spec fn run_model(m: StoreModel, steps: Seq<MigrationStep>) -> Result<
    (StoreModel, nat),
    (StoreModel, StoreError),
>
    decreases steps.len(),
{
    if steps.len() == 0 {
        Ok((m, 0))
    } else {
        let step = steps[0];
        if ledger_has_version(m.ledger, step.version) {
            run_model(m, steps.skip(1))
        } else {
            match apply_effect_model(m, step.effect) {
                Err(e) => Err((m, e)),
                Ok(applied) => {
                    let recorded = StoreModel {
                        ledger: applied.ledger.push(ledger_entry_of(step)),
                        ..applied
                    };
                    match run_model(recorded, steps.skip(1)) {
                        Ok((done, n)) => Ok((done, n + 1)),
                        Err(stopped) => Err(stopped),
                    }
                },
            }
        }
    }
}

/// Every version the ledger records is one the catalog knows. A ledger
/// version outside the catalog is corruption and stops the runner before it
/// touches anything.
pub open spec fn ledger_in_catalog(ledger: Seq<LedgerEntry>, steps: Seq<MigrationStep>) -> bool {
    forall|i: int|
        #![trigger ledger[i]]
        0 <= i < ledger.len() ==> exists|k: int|
            #![trigger steps[k]]
            0 <= k < steps.len() && steps[k].version == ledger[i].version
}

fn catalog_knows_version(catalog: &Catalog, version: u64) -> (b: bool)
    ensures
        b == exists|k: int|
            #![trigger catalog.steps@[k]]
            0 <= k < catalog.steps@.len() && catalog.steps@[k].version == version,
{
    let mut k: usize = 0;
    while k < catalog.steps.len()
        invariant
            k <= catalog.steps.len(),
            forall|j: int|
                #![trigger catalog.steps@[j]]
                0 <= j < k ==> catalog.steps@[j].version != version,
        decreases catalog.steps.len() - k,
    {
        if catalog.steps[k].version == version {
            return true;
        }
        k += 1;
    }
    false
}

fn ledger_is_in_catalog(store: &Store, catalog: &Catalog) -> (b: bool)
    ensures
        b == ledger_in_catalog(store@.ledger, catalog.steps@),
{
    let mut i: usize = 0;
    while i < store.ledger.len()
        invariant
            i <= store.ledger.len(),
            ledger_in_catalog(store.ledger@.take(i as int), catalog.steps@),
        decreases store.ledger.len() - i,
    {
        if !catalog_knows_version(catalog, store.ledger[i].version) {
            proof {
                if ledger_in_catalog(store.ledger@, catalog.steps@) {
                    assert(store.ledger@[i as int].version == store.ledger@[i as int].version);
                    assert(exists|k: int|
                        #![trigger catalog.steps@[k]]
                        0 <= k < catalog.steps@.len() && catalog.steps@[k].version
                            == store.ledger@[i as int].version);
                }
            }
            return false;
        }
        proof {
            let pre = store.ledger@.take(i as int);
            let post = store.ledger@.take(i as int + 1);
            assert(post =~= pre.push(store.ledger@[i as int]));
            assert forall|j: int| #![trigger post[j]] 0 <= j < post.len() implies exists|k: int|
                #![trigger catalog.steps@[k]]
                0 <= k < catalog.steps@.len() && catalog.steps@[k].version
                    == post[j].version by {
                if j < i as int {
                    assert(post[j] == pre[j]);
                } else {
                    assert(post[j] == store.ledger@[i as int]);
                }
            }
        }
        i += 1;
    }
    proof {
        assert(store.ledger@.take(store.ledger@.len() as int) =~= store.ledger@);
    }
    true
}

/// Applies every catalog step whose version the ledger does not record yet,
/// in ascending version order, recording each applied version; re-entrant
/// and idempotent. Returns how many steps were applied — 0 on a fully
/// migrated store — or the first failing step's error, leaving every step
/// before it applied and the failing step's changes invisible. A ledger
/// version unknown to the catalog is reported as corruption, with nothing
/// touched.
pub fn apply_pending(store: &mut Store, catalog: &Catalog) -> (r: Result<u64, StoreError>)
    requires
        old(store)@.wf(),
        catalog_wf(catalog.steps@),
    ensures
        final(store)@.wf(),
        match r {
            Ok(n) => {
                &&& ledger_in_catalog(old(store)@.ledger, catalog.steps@)
                &&& run_model(old(store)@, catalog.steps@) == Ok::<
                    (StoreModel, nat),
                    (StoreModel, StoreError),
                >((final(store)@, n as nat))
            },
            Err(e) => {
                if !ledger_in_catalog(old(store)@.ledger, catalog.steps@) {
                    e == StoreError::LedgerCorruption && final(store)@ == old(store)@
                } else {
                    run_model(old(store)@, catalog.steps@) == Err::<
                        (StoreModel, nat),
                        (StoreModel, StoreError),
                    >((final(store)@, e))
                }
            },
        },
{
    if !ledger_is_in_catalog(store, catalog) {
        return Err(StoreError::LedgerCorruption);
    }
    proof {
        assert(catalog.steps@.skip(0) =~= catalog.steps@);
    }
    let mut i: usize = 0;
    let mut applied: u64 = 0;
    while i < catalog.steps.len()
        invariant
            i <= catalog.steps.len(),
            applied <= i,
            store@.wf(),
            ledger_in_catalog(old(store)@.ledger, catalog.steps@),
            run_model(old(store)@, catalog.steps@) == (match run_model(
                store@,
                catalog.steps@.skip(i as int),
            ) {
                Ok((done, n)) => Ok::<(StoreModel, nat), (StoreModel, StoreError)>(
                    (done, n + applied as nat),
                ),
                Err(stopped) => Err::<(StoreModel, nat), (StoreModel, StoreError)>(stopped),
            }),
        decreases catalog.steps.len() - i,
    {
        proof {
            assert(catalog.steps@.skip(i as int).skip(1) =~= catalog.steps@.skip(i as int + 1));
        }
        let step = &catalog.steps[i];
        if !ledger_contains(&store.ledger, step.version) {
            let ghost before = store@;
            match apply_effect(store, &step.effect) {
                Err(e) => {
                    proof {
                        assert(catalog.steps@.skip(i as int)[0] == catalog.steps@[i as int]);
                        assert(run_model(store@, catalog.steps@.skip(i as int)) == Err::<
                            (StoreModel, nat),
                            (StoreModel, StoreError),
                        >((store@, e)));
                    }
                    return Err(e);
                },
                Ok(_) => {
                    proof {
                        lemma_apply_effect_model_wf(before, step.effect);
                    }
                    let entry = LedgerEntry {
                        version: step.version,
                        description: step.description.clone(),
                    };
                    store.ledger.push(entry);
                    proof {
                        assert(store@ =~= StoreModel {
                            ledger: before.ledger.push(ledger_entry_of(catalog.steps@[i as int])),
                            ..apply_effect_model(before, catalog.steps@[i as int].effect)->Ok_0
                        });
                        assert forall|a: int, b: int|
                            0 <= a < b < store@.ledger.len() implies store@.ledger[a].version
                            != store@.ledger[b].version by {
                            if b == store@.ledger.len() - 1 {
                                assert(store@.ledger[a] == before.ledger[a]);
                            }
                        }
                    }
                    applied = applied + 1;
                },
            }
        }
        i += 1;
    }
    proof {
        assert(catalog.steps@.skip(catalog.steps@.len() as int)
            =~= Seq::<MigrationStep>::empty());
    }
    Ok(applied)
}

impl Store {
    /// The versions the ledger records, in the order they were applied.
    pub fn applied_versions(&self) -> (versions: Vec<u64>)
        ensures
            versions@.len() == self@.ledger.len(),
            forall|i: int|
                0 <= i < versions@.len() ==> versions@[i] == #[trigger] self@.ledger[i].version,
    {
        let mut versions: Vec<u64> = Vec::new();
        let mut i: usize = 0;
        while i < self.ledger.len()
            invariant
                i <= self.ledger.len(),
                versions@.len() == i,
                forall|j: int|
                    0 <= j < i ==> versions@[j] == #[trigger] self@.ledger[j].version,
            decreases self.ledger.len() - i,
        {
            versions.push(self.ledger[i].version);
            i += 1;
        }
        versions
    }
}

} // verus!
