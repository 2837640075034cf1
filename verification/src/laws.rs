//! The engine's governing laws, proved over the runner's semantics.

use vstd::prelude::*;

use crate::catalog::{catalog_wf, MigrationStep};
use crate::domain::{LedgerEntry, UserRow};
use crate::runner::{ledger_entry_of, run_model};
use crate::store::{
    ledger_has_version, lemma_seed_users_wf, seed_users_model, users_table_wf, StoreModel,
};

verus! {

/// The ledger records the pushed entry's version, and keeps every version it
/// already had.
proof fn lemma_ledger_has_push(l: Seq<LedgerEntry>, e: LedgerEntry, v: u64)
    ensures
        ledger_has_version(l.push(e), v) <==> (ledger_has_version(l, v) || e.version == v),
{
    if ledger_has_version(l, v) {
        let k = choose|k: int| 0 <= k < l.len() && #[trigger] l[k].version == v;
        assert(l.push(e)[k].version == v);
    }
    if e.version == v {
        assert(l.push(e)[l.len() as int].version == v);
    }
    if ledger_has_version(l.push(e), v) {
        let k = choose|k: int| 0 <= k < l.push(e).len() && #[trigger] l.push(e)[k].version == v;
        if k < l.len() {
            assert(l[k].version == v);
        }
    }
}

/// The ledger entries a run starting from ledger `l` appends: one for each
/// step whose version `l` does not record, in catalog order.
pub open spec fn pending_entries(l: Seq<LedgerEntry>, steps: Seq<MigrationStep>) -> Seq<
    LedgerEntry,
>
    decreases steps.len(),
{
    if steps.len() == 0 {
        Seq::empty()
    } else if ledger_has_version(l, steps[0].version) {
        pending_entries(l, steps.skip(1))
    } else {
        seq![ledger_entry_of(steps[0])] + pending_entries(l, steps.skip(1))
    }
}

/// Two ledgers that agree on which step versions they record agree on the
/// pending entries.
proof fn lemma_pending_entries_agree(
    l1: Seq<LedgerEntry>,
    l2: Seq<LedgerEntry>,
    steps: Seq<MigrationStep>,
)
    requires
        forall|k: int|
            #![trigger steps[k]]
            0 <= k < steps.len() ==> (ledger_has_version(l1, steps[k].version)
                <==> ledger_has_version(l2, steps[k].version)),
    ensures
        pending_entries(l1, steps) == pending_entries(l2, steps),
    decreases steps.len(),
{
    if steps.len() > 0 {
        assert forall|k: int|
            #![trigger steps.skip(1)[k]]
            0 <= k < steps.skip(1).len() implies (ledger_has_version(
            l1,
            steps.skip(1)[k].version,
        ) <==> ledger_has_version(l2, steps.skip(1)[k].version)) by {
            assert(steps.skip(1)[k] == steps[k + 1]);
        }
        lemma_pending_entries_agree(l1, l2, steps.skip(1));
    }
}

/// Every step version a ledger does not record has its entry among the
/// pending entries.
proof fn lemma_pending_covers(l: Seq<LedgerEntry>, steps: Seq<MigrationStep>, k: int)
    requires
        0 <= k < steps.len(),
        !ledger_has_version(l, steps[k].version),
    ensures
        ledger_has_version(pending_entries(l, steps), steps[k].version),
    decreases steps.len(),
{
    let rest = pending_entries(l, steps.skip(1));
    if k == 0 {
        assert((seq![ledger_entry_of(steps[0])] + rest)[0] == ledger_entry_of(steps[0]));
    } else {
        assert(steps.skip(1)[k - 1] == steps[k]);
        lemma_pending_covers(l, steps.skip(1), k - 1);
        let j = choose|j: int| 0 <= j < rest.len() && #[trigger] rest[j].version
            == steps[k].version;
        if !ledger_has_version(l, steps[0].version) {
            assert((seq![ledger_entry_of(steps[0])] + rest)[j + 1] == rest[j]);
        }
    }
}

/// Every pending entry is the entry of some step the ledger does not record.
proof fn lemma_pending_entries_are_steps(l: Seq<LedgerEntry>, steps: Seq<MigrationStep>, i: int)
    requires
        0 <= i < pending_entries(l, steps).len(),
    ensures
        exists|k: int|
            0 <= k < steps.len() && pending_entries(l, steps)[i] == ledger_entry_of(
                #[trigger] steps[k],
            ) && !ledger_has_version(l, steps[k].version),
    decreases steps.len(),
{
    let rest = pending_entries(l, steps.skip(1));
    if ledger_has_version(l, steps[0].version) {
        lemma_pending_entries_are_steps(l, steps.skip(1), i);
        let k = choose|k: int|
            0 <= k < steps.skip(1).len() && rest[i] == ledger_entry_of(
                #[trigger] steps.skip(1)[k],
            ) && !ledger_has_version(l, steps.skip(1)[k].version);
        assert(steps.skip(1)[k] == steps[k + 1]);
        assert(pending_entries(l, steps)[i] == ledger_entry_of(steps[k + 1]));
    } else {
        if i == 0 {
            assert((seq![ledger_entry_of(steps[0])] + rest)[0] == ledger_entry_of(steps[0]));
        } else {
            assert((seq![ledger_entry_of(steps[0])] + rest)[i] == rest[i - 1]);
            lemma_pending_entries_are_steps(l, steps.skip(1), i - 1);
            let k = choose|k: int|
                0 <= k < steps.skip(1).len() && rest[i - 1] == ledger_entry_of(
                    #[trigger] steps.skip(1)[k],
                ) && !ledger_has_version(l, steps.skip(1)[k].version);
            assert(steps.skip(1)[k] == steps[k + 1]);
        }
    }
}

/// When no step version is recorded yet, the pending entries are exactly the
/// whole catalog's entries, in catalog order.
proof fn lemma_pending_all(l: Seq<LedgerEntry>, steps: Seq<MigrationStep>)
    requires
        forall|k: int|
            #![trigger steps[k]]
            0 <= k < steps.len() ==> !ledger_has_version(l, steps[k].version),
    ensures
        pending_entries(l, steps).len() == steps.len(),
        forall|i: int|
            0 <= i < steps.len() ==> pending_entries(l, steps)[i] == ledger_entry_of(
                #[trigger] steps[i],
            ),
    decreases steps.len(),
{
    if steps.len() > 0 {
        assert forall|k: int|
            #![trigger steps.skip(1)[k]]
            0 <= k < steps.skip(1).len() implies !ledger_has_version(
            l,
            steps.skip(1)[k].version,
        ) by {
            assert(steps.skip(1)[k] == steps[k + 1]);
        }
        lemma_pending_all(l, steps.skip(1));
        let rest = pending_entries(l, steps.skip(1));
        assert forall|i: int| 0 <= i < steps.len() implies pending_entries(l, steps)[i]
            == ledger_entry_of(#[trigger] steps[i]) by {
            if i == 0 {
                assert((seq![ledger_entry_of(steps[0])] + rest)[0] == ledger_entry_of(steps[0]));
            } else {
                assert((seq![ledger_entry_of(steps[0])] + rest)[i] == rest[i - 1]);
                assert(steps.skip(1)[i - 1] == steps[i]);
            }
        }
    }
}

/// No effect touches the ledger; only the runner itself records versions.
proof fn lemma_apply_effect_keeps_ledger(m: StoreModel, e: crate::catalog::Effect)
    ensures
        crate::store::apply_effect_model(m, e) matches Ok(m2) ==> m2.ledger == m.ledger,
{
}

/// What a successful run does to the ledger: it appends exactly the pending
/// entries — one per catalog step not yet recorded, in catalog order — and
/// reports their number.
pub proof fn lemma_run_model_ledger(m: StoreModel, steps: Seq<MigrationStep>)
    requires
        catalog_wf(steps),
    ensures
        run_model(m, steps) matches Ok((done, n)) ==> done.ledger == m.ledger + pending_entries(
            m.ledger,
            steps,
        ) && n == pending_entries(m.ledger, steps).len(),
    decreases steps.len(),
{
    if steps.len() == 0 {
        if run_model(m, steps) is Ok {
            assert(m.ledger + pending_entries(m.ledger, steps) =~= m.ledger);
        }
    } else {
        let step = steps[0];
        assert forall|i: int, j: int|
            #![trigger steps.skip(1)[i], steps.skip(1)[j]]
            0 <= i < j < steps.skip(1).len() implies steps.skip(1)[i].version < steps.skip(
            1,
        )[j].version by {
            assert(steps.skip(1)[i] == steps[i + 1]);
            assert(steps.skip(1)[j] == steps[j + 1]);
        }
        if ledger_has_version(m.ledger, step.version) {
            lemma_run_model_ledger(m, steps.skip(1));
        } else {
            match crate::store::apply_effect_model(m, step.effect) {
                Err(_) => {},
                Ok(applied) => {
                    lemma_apply_effect_keeps_ledger(m, step.effect);
                    let entry = ledger_entry_of(step);
                    let recorded = StoreModel { ledger: applied.ledger.push(entry), ..applied };
                    lemma_run_model_ledger(recorded, steps.skip(1));
                    if run_model(recorded, steps.skip(1)) is Ok {
                        assert forall|k: int|
                            #![trigger steps.skip(1)[k]]
                            0 <= k < steps.skip(1).len() implies (ledger_has_version(
                            recorded.ledger,
                            steps.skip(1)[k].version,
                        ) <==> ledger_has_version(m.ledger, steps.skip(1)[k].version)) by {
                            assert(steps.skip(1)[k] == steps[k + 1]);
                            assert(steps[k + 1].version > step.version);
                            lemma_ledger_has_push(
                                m.ledger,
                                entry,
                                steps.skip(1)[k].version,
                            );
                        }
                        lemma_pending_entries_agree(recorded.ledger, m.ledger, steps.skip(1));
                        assert(m.ledger.push(entry) + pending_entries(m.ledger, steps.skip(1))
                            =~= m.ledger + (seq![entry] + pending_entries(
                            m.ledger,
                            steps.skip(1),
                        )));
                    }
                },
            }
        }
    }
}

/// A run against a ledger that already records every step version applies
/// nothing and changes nothing.
proof fn lemma_run_model_noop(m: StoreModel, steps: Seq<MigrationStep>)
    requires
        forall|k: int|
            #![trigger steps[k]]
            0 <= k < steps.len() ==> ledger_has_version(m.ledger, steps[k].version),
    ensures
        run_model(m, steps) == Ok::<(StoreModel, nat), (StoreModel, crate::domain::StoreError)>((m, 0nat)),
    decreases steps.len(),
{
    if steps.len() > 0 {
        assert forall|k: int|
            #![trigger steps.skip(1)[k]]
            0 <= k < steps.skip(1).len() implies ledger_has_version(
            m.ledger,
            steps.skip(1)[k].version,
        ) by {
            assert(steps.skip(1)[k] == steps[k + 1]);
        }
        lemma_run_model_noop(m, steps.skip(1));
    }
}

/// After a successful run, every catalog version is recorded.
pub proof fn lemma_run_model_covers(m: StoreModel, steps: Seq<MigrationStep>)
    requires
        catalog_wf(steps),
    ensures
        run_model(m, steps) matches Ok((done, n)) ==> forall|k: int|
            #![trigger steps[k]]
            0 <= k < steps.len() ==> ledger_has_version(done.ledger, steps[k].version),
    decreases steps.len(),
{
    if run_model(m, steps) is Ok {
        let done = run_model(m, steps)->Ok_0.0;
        lemma_run_model_ledger(m, steps);
        let pend = pending_entries(m.ledger, steps);
        assert forall|k: int| #![trigger steps[k]] 0 <= k < steps.len() implies ledger_has_version(
            done.ledger,
            steps[k].version,
        ) by {
            if ledger_has_version(m.ledger, steps[k].version) {
                let i = choose|i: int|
                    0 <= i < m.ledger.len() && #[trigger] m.ledger[i].version == steps[k].version;
                assert(done.ledger[i].version == steps[k].version);
            } else {
                lemma_pending_covers(m.ledger, steps, k);
                let i = choose|i: int|
                    0 <= i < pend.len() && #[trigger] pend[i].version == steps[k].version;
                assert(done.ledger[m.ledger.len() + i].version == steps[k].version);
            }
        }
    }
}

/// Idempotence of the runner: after one successful run, a second run over
/// the same catalog is a no-op — it applies zero steps and returns the store
/// unchanged. Hence any number of consecutive runs leaves exactly the state
/// of the first one.
pub proof fn lemma_run_model_idempotent(m: StoreModel, steps: Seq<MigrationStep>)
    requires
        catalog_wf(steps),
        run_model(m, steps) is Ok,
    ensures
        run_model(run_model(m, steps)->Ok_0.0, steps) == Ok::<
            (StoreModel, nat),
            (StoreModel, crate::domain::StoreError),
        >((run_model(m, steps)->Ok_0.0, 0nat)),
{
    let done = run_model(m, steps)->Ok_0.0;
    lemma_run_model_covers(m, steps);
    lemma_run_model_noop(done, steps);
}

/// The store model after `n` consecutive runs of the runner over the same
/// catalog, each run picking up where the previous one ended — also when a
/// run stops at a failing step, since the steps before it stay applied.
pub open spec fn state_after_runs(m: StoreModel, steps: Seq<MigrationStep>, n: nat) -> StoreModel
    decreases n,
{
    if n == 0 {
        m
    } else {
        let prev = state_after_runs(m, steps, (n - 1) as nat);
        match run_model(prev, steps) {
            Ok((done, k)) => done,
            Err((stopped, e)) => stopped,
        }
    }
}

/// Running the runner any number of consecutive times is equivalent to
/// running it once: after a first successful run, every later run finds
/// every version recorded and changes nothing.
pub proof fn lemma_runs_converge(m: StoreModel, steps: Seq<MigrationStep>, n: nat)
    requires
        catalog_wf(steps),
        run_model(m, steps) is Ok,
        n >= 1,
    ensures
        state_after_runs(m, steps, n) == run_model(m, steps)->Ok_0.0,
    decreases n,
{
    if n == 1 {
        assert(state_after_runs(m, steps, 0) == m);
    } else {
        lemma_runs_converge(m, steps, (n - 1) as nat);
        lemma_run_model_idempotent(m, steps);
    }
}

/// A migration of an empty store records every catalog version exactly once,
/// in ascending catalog order, with the step's own description.
pub proof fn lemma_migrate_fresh_records_all(m: StoreModel, steps: Seq<MigrationStep>)
    requires
        catalog_wf(steps),
        m.ledger.len() == 0,
        run_model(m, steps) is Ok,
    ensures
        run_model(m, steps)->Ok_0.0.ledger.len() == steps.len(),
        run_model(m, steps)->Ok_0.1 == steps.len(),
        forall|i: int|
            0 <= i < steps.len() ==> run_model(m, steps)->Ok_0.0.ledger[i] == ledger_entry_of(
                #[trigger] steps[i],
            ),
        forall|i: int, j: int|
            #![trigger run_model(m, steps)->Ok_0.0.ledger[i], run_model(m, steps)->Ok_0.0.ledger[j]]
            0 <= i < j < steps.len() ==> run_model(m, steps)->Ok_0.0.ledger[i].version < run_model(
                m,
                steps,
            )->Ok_0.0.ledger[j].version,
{
    let done = run_model(m, steps)->Ok_0.0;
    lemma_run_model_ledger(m, steps);
    assert forall|k: int| #![trigger steps[k]] 0 <= k < steps.len() implies !ledger_has_version(
        m.ledger,
        steps[k].version,
    ) by {}
    lemma_pending_all(m.ledger, steps);
    assert(done.ledger =~= pending_entries(m.ledger, steps));
    assert forall|i: int, j: int|
        #![trigger done.ledger[i], done.ledger[j]]
        0 <= i < j < steps.len() implies done.ledger[i].version < done.ledger[j].version by {
        assert(done.ledger[i] == ledger_entry_of(steps[i]));
        assert(done.ledger[j] == ledger_entry_of(steps[j]));
    }
}

/// Resuming from a store already migrated through version `upto` applies
/// exactly the catalog's later versions: the ledger keeps its records and
/// gains one entry per step above `upto`, each recorded once.
pub proof fn lemma_migrate_resumes_above(m: StoreModel, steps: Seq<MigrationStep>, upto: u64)
    requires
        catalog_wf(steps),
        forall|k: int|
            #![trigger steps[k]]
            0 <= k < steps.len() ==> (ledger_has_version(m.ledger, steps[k].version)
                <==> steps[k].version <= upto),
        run_model(m, steps) is Ok,
    ensures
        run_model(m, steps)->Ok_0.0.ledger.len() == m.ledger.len() + run_model(m, steps)->Ok_0.1,
        forall|i: int|
            0 <= i < m.ledger.len() ==> run_model(m, steps)->Ok_0.0.ledger[i] == #[trigger] m.ledger[i],
        forall|i: int|
            m.ledger.len() <= i < run_model(m, steps)->Ok_0.0.ledger.len()
                ==> #[trigger] run_model(m, steps)->Ok_0.0.ledger[i].version > upto,
        forall|k: int|
            #![trigger steps[k]]
            0 <= k < steps.len() && steps[k].version > upto ==> ledger_has_version(
                run_model(m, steps)->Ok_0.0.ledger,
                steps[k].version,
            ),
{
    let done = run_model(m, steps)->Ok_0.0;
    lemma_run_model_ledger(m, steps);
    lemma_run_model_covers(m, steps);
    let pend = pending_entries(m.ledger, steps);
    assert forall|i: int|
        m.ledger.len() <= i < done.ledger.len() implies #[trigger] done.ledger[i].version
        > upto by {
        assert(done.ledger[i] == pend[i - m.ledger.len()]);
        lemma_pending_entries_are_steps(m.ledger, steps, i - m.ledger.len());
    }
}

/// What a run may do to rows that already exist, stated for one effect:
/// users, products, order items and settings only ever gain rows at the
/// end, and an existing order changes at most by a backfilled `user_id`.
proof fn lemma_apply_effect_preserves_rows(m: StoreModel, e: crate::catalog::Effect)
    requires
        m.wf(),
    ensures
        crate::store::apply_effect_model(m, e) matches Ok(m2) ==> {
            &&& m2.users.len() >= m.users.len()
            &&& forall|i: int| 0 <= i < m.users.len() ==> #[trigger] m2.users[i] == m.users[i]
            &&& m2.products.len() >= m.products.len()
            &&& forall|i: int|
                0 <= i < m.products.len() ==> #[trigger] m2.products[i] == m.products[i]
            &&& m2.order_items.len() >= m.order_items.len()
            &&& forall|i: int|
                0 <= i < m.order_items.len() ==> #[trigger] m2.order_items[i] == m.order_items[i]
            &&& m2.settings.len() >= m.settings.len()
            &&& forall|i: int|
                0 <= i < m.settings.len() ==> #[trigger] m2.settings[i] == m.settings[i]
            &&& m2.orders.len() >= m.orders.len()
            &&& forall|i: int|
                0 <= i < m.orders.len() ==> crate::store::same_but_user(
                    #[trigger] m.orders[i],
                    m2.orders[i],
                )
        },
{
    match e {
        crate::catalog::Effect::SeedUsers(rows) => {
            if m.users_created {
                lemma_seed_users_wf(m.users, rows@);
            }
        },
        crate::catalog::Effect::SeedProducts(rows) => {
            if m.products_created {
                crate::store::lemma_seed_products_wf(m.products, rows@);
            }
        },
        crate::catalog::Effect::SeedOrders(rows) => {
            if m.orders_created && (m.orders_have_user_column || !(exists|k: int|
                #![trigger rows@[k]]
                0 <= k < rows@.len() && rows@[k].user_id is Some)) {
                crate::store::lemma_seed_orders_wf(
                    m.orders,
                    m.users,
                    rows@,
                    m.orders_have_user_column,
                );
            }
        },
        crate::catalog::Effect::SeedOrderItems(rows) => {
            if m.order_items_created {
                crate::store::lemma_seed_items_wf(m.order_items, m.orders, m.products, rows@);
            }
        },
        _ => {},
    }
}

/// A successful run leaves every pre-existing row in place: users, products,
/// order items and settings keep each row unchanged at its index, and an
/// existing order changes at most by a backfilled `user_id`. This is what
/// "resuming a migration touches nothing already there" means.
pub proof fn lemma_run_model_preserves_rows(m: StoreModel, steps: Seq<MigrationStep>)
    requires
        m.wf(),
    ensures
        run_model(m, steps) matches Ok((done, n)) ==> {
            &&& done.users.len() >= m.users.len()
            &&& forall|i: int| 0 <= i < m.users.len() ==> #[trigger] done.users[i] == m.users[i]
            &&& done.products.len() >= m.products.len()
            &&& forall|i: int|
                0 <= i < m.products.len() ==> #[trigger] done.products[i] == m.products[i]
            &&& done.order_items.len() >= m.order_items.len()
            &&& forall|i: int|
                0 <= i < m.order_items.len() ==> #[trigger] done.order_items[i]
                    == m.order_items[i]
            &&& done.settings.len() >= m.settings.len()
            &&& forall|i: int|
                0 <= i < m.settings.len() ==> #[trigger] done.settings[i] == m.settings[i]
            &&& done.orders.len() >= m.orders.len()
            &&& forall|i: int|
                0 <= i < m.orders.len() ==> crate::store::same_but_user(
                    #[trigger] m.orders[i],
                    done.orders[i],
                )
        },
    decreases steps.len(),
{
    if steps.len() > 0 && run_model(m, steps) is Ok {
        let step = steps[0];
        if ledger_has_version(m.ledger, step.version) {
            lemma_run_model_preserves_rows(m, steps.skip(1));
        } else {
            let mid = crate::store::apply_effect_model(m, step.effect)->Ok_0;
            lemma_apply_effect_preserves_rows(m, step.effect);
            crate::store::lemma_apply_effect_model_wf(m, step.effect);
            let entry = ledger_entry_of(step);
            let recorded = StoreModel { ledger: mid.ledger.push(entry), ..mid };
            lemma_apply_effect_keeps_ledger(m, step.effect);
            assert forall|a: int, b: int|
                #![trigger recorded.ledger[a], recorded.ledger[b]]
                0 <= a < b < recorded.ledger.len() implies recorded.ledger[a].version
                != recorded.ledger[b].version by {
                if b == recorded.ledger.len() - 1 {
                    assert(recorded.ledger[a] == m.ledger[a]);
                }
            }
            assert(recorded.wf());
            lemma_run_model_preserves_rows(recorded, steps.skip(1));
            let done = run_model(m, steps)->Ok_0.0;
            assert forall|i: int| 0 <= i < m.orders.len() implies crate::store::same_but_user(
                #[trigger] m.orders[i],
                done.orders[i],
            ) by {
                assert(crate::store::same_but_user(m.orders[i], recorded.orders[i]));
                assert(crate::store::same_but_user(recorded.orders[i], done.orders[i]));
            }
        }
    }
}

/// Seed steps never duplicate rows and never overwrite them: after seeding
/// into a users table with unique ids, any id — in particular one the table
/// already had — identifies at most one row, and every pre-existing row is
/// still there, unchanged, at its place.
pub proof fn lemma_seed_users_no_duplicate(cur: Seq<UserRow>, rows: Seq<UserRow>, id: u64)
    requires
        users_table_wf(cur),
    ensures
        forall|i: int, j: int|
            #![trigger seed_users_model(cur, rows)[i], seed_users_model(cur, rows)[j]]
            0 <= i < seed_users_model(cur, rows).len() && 0 <= j < seed_users_model(
                cur,
                rows,
            ).len() && seed_users_model(cur, rows)[i].id == id && seed_users_model(
                cur,
                rows,
            )[j].id == id ==> i == j,
        forall|j: int| 0 <= j < cur.len() ==> #[trigger] seed_users_model(cur, rows)[j] == cur[j],
{
    lemma_seed_users_wf(cur, rows);
}

} // verus!
