//! The drain loop: walk the snapshot of pending work items once; for each
//! item persist the detail record its fetch produced and mark the item
//! fetched, or leave a failed item pending for a later invocation.
//!
//! The page fetch itself happens outside the library; a drain invocation
//! receives each item's outcome as a value.  One bad page never halts the
//! loop, and a parent is synced exactly when its drain saw zero failures.

use vstd::hash_map::StringHashMap;
use vstd::prelude::*;

use crate::error::ExtractError;
use crate::error::FetchError;
use crate::store::complete_one;
use crate::store::keys_list;
use crate::store::set_synced_spec;
use crate::store::views_of;
use crate::store::DetailModel;
use crate::store::DetailRecord;
use crate::store::FrontierStore;
use crate::store::ItemModel;
use crate::Tally;

verus! {

// ---------------------------------------------------------------------------
// Outcomes
// ---------------------------------------------------------------------------

/// What fetching and extracting one work item's detail page produced.
pub enum ItemOutcome {
    /// The page was fetched and extracted into one detail record.
    Record(DetailRecord),
    /// The fetch failed; retryable by leaving the item pending.
    FetchFailed(FetchError),
    /// The page structure did not match; the item stays pending.
    ExtractFailed(ExtractError),
}

/// The mathematical value of an [`ItemOutcome`].
pub enum OutcomeModel {
    Record(Seq<char>, DetailModel),
    FetchFailed(FetchError),
    ExtractFailed(ExtractError),
}

impl ItemOutcome {
    pub open spec fn model(self) -> OutcomeModel {
        match self {
            ItemOutcome::Record(r) => OutcomeModel::Record(r.key@, r.model()),
            ItemOutcome::FetchFailed(e) => OutcomeModel::FetchFailed(e),
            ItemOutcome::ExtractFailed(e) => OutcomeModel::ExtractFailed(e),
        }
    }
}

/// True when the plan answers this key with a record.
pub open spec fn success_at(plan: Map<Seq<char>, OutcomeModel>, k: Seq<char>) -> bool {
    plan.contains_key(k) && plan[k] is Record
}

/// The record a successful key maps to.
pub open spec fn record_at(plan: Map<Seq<char>, OutcomeModel>, k: Seq<char>) -> DetailModel {
    plan[k]->Record_1
}

/// The outcome of every item of one invocation, keyed by the item's
/// natural key.  A successful outcome is filed under its record's own key,
/// so a record always answers for the item it belongs to.
pub struct FetchPlan {
    outcomes: StringHashMap<ItemOutcome>,
}

impl FetchPlan {
    /// The outcomes by item key.
    pub closed spec fn model(self) -> Map<Seq<char>, OutcomeModel> {
        self.outcomes@.map_values(|o: ItemOutcome| o.model())
    }

    /// Every successful outcome is keyed by its own record's key.
    pub closed spec fn wf(self) -> bool {
        forall|k: Seq<char>|
            #[trigger] self.model().contains_key(k) && self.model()[k] is Record
                ==> self.model()[k]->Record_0 == k
    }

    /// A plan with no outcomes: every item counts as a network failure.
    pub fn new() -> (r: Self)
        ensures
            r.wf(),
            r.model() == Map::<Seq<char>, OutcomeModel>::empty(),
    {
        let r = FetchPlan { outcomes: StringHashMap::new() };
        proof {
            assert(r.model() =~= Map::<Seq<char>, OutcomeModel>::empty());
        }
        r
    }

    /// File a successful fetch under the record's natural key.
    pub fn succeed(&mut self, rec: DetailRecord)
        requires
            old(self).wf(),
        ensures
            final(self).wf(),
            final(self).model() == old(self).model().insert(
                rec.key@,
                OutcomeModel::Record(rec.key@, rec.model()),
            ),
    {
        let k = rec.key.clone();
        let ghost m = rec.model();
        let ghost kk = rec.key@;
        self.outcomes.insert(k, ItemOutcome::Record(rec));
        proof {
            assert(self.model() =~= old(self).model().insert(kk, OutcomeModel::Record(kk, m)));
        }
    }

    /// File a fetch failure for an item key.
    pub fn fail_fetch(&mut self, key: &String, err: FetchError)
        requires
            old(self).wf(),
        ensures
            final(self).wf(),
            final(self).model() == old(self).model().insert(key@, OutcomeModel::FetchFailed(err)),
    {
        self.outcomes.insert(key.clone(), ItemOutcome::FetchFailed(err));
        proof {
            assert(self.model() =~= old(self).model().insert(
                key@,
                OutcomeModel::FetchFailed(err),
            ));
        }
    }

    /// File an extraction failure for an item key.
    pub fn fail_extract(&mut self, key: &String, err: ExtractError)
        requires
            old(self).wf(),
        ensures
            final(self).wf(),
            final(self).model() == old(self).model().insert(
                key@,
                OutcomeModel::ExtractFailed(err),
            ),
    {
        self.outcomes.insert(key.clone(), ItemOutcome::ExtractFailed(err));
        proof {
            assert(self.model() =~= old(self).model().insert(
                key@,
                OutcomeModel::ExtractFailed(err),
            ));
        }
    }

    /// Look up the outcome planned for one item key.
    pub fn outcome(&self, key: &String) -> (r: Option<&ItemOutcome>)
        ensures
            match r {
                Some(o) => self.model().contains_key(key@) && o.model() == self.model()[key@],
                None => !self.model().contains_key(key@),
            },
    {
        let r = self.outcomes.get(key.as_str());
        proof {
            if self.outcomes@.contains_key(key@) {
                assert(self.model()[key@] == self.outcomes@[key@].model());
            }
        }
        r
    }
}

// ---------------------------------------------------------------------------
// The drain fold
// ---------------------------------------------------------------------------

/// The state a drain run threads through the items it walks.
pub struct DrainState {
    pub items: Map<Seq<char>, ItemModel>,
    pub details: Map<Seq<char>, DetailModel>,
    pub succeeded: nat,
    pub failed: nat,
}

/// Draining one key: a pending item either yields its record — persisted
/// under the record's key, the item completed — or a failure, leaving the
/// item pending.  A key that is gone or already fetched is skipped.
pub open spec fn drain_step(
    s: DrainState,
    k: Seq<char>,
    plan: Map<Seq<char>, OutcomeModel>,
) -> DrainState {
    if s.items.contains_key(k) && !s.items[k].fetched {
        if success_at(plan, k) {
            DrainState {
                items: complete_one(s.items, k),
                details: s.details.insert(plan[k]->Record_0, record_at(plan, k)),
                succeeded: s.succeeded + 1,
                failed: s.failed,
            }
        } else {
            DrainState { failed: s.failed + 1, ..s }
        }
    } else {
        s
    }
}

/// A whole drain run over a snapshot of keys, left to right.
pub open spec fn drain_run(
    s: DrainState,
    keys: Seq<Seq<char>>,
    plan: Map<Seq<char>, OutcomeModel>,
) -> DrainState
    decreases keys.len(),
{
    if keys.len() == 0 {
        s
    } else {
        drain_step(drain_run(s, keys.drop_last(), plan), keys.last(), plan)
    }
}

/// The tallies of a drain run never exceed the snapshot it walked.
pub proof fn lemma_drain_run_counts(
    s: DrainState,
    keys: Seq<Seq<char>>,
    plan: Map<Seq<char>, OutcomeModel>,
)
    ensures
        drain_run(s, keys, plan).succeeded + drain_run(s, keys, plan).failed <= s.succeeded
            + s.failed + keys.len(),
        drain_run(s, keys, plan).succeeded >= s.succeeded,
        drain_run(s, keys, plan).failed >= s.failed,
    decreases keys.len(),
{
    if keys.len() > 0 {
        lemma_drain_run_counts(s, keys.drop_last(), plan);
    }
}

// ---------------------------------------------------------------------------
// The executable drain
// ---------------------------------------------------------------------------

/// Walk the given snapshot of item keys once, applying each key's planned
/// outcome to the store.  The result is exactly the drain fold; a failure
/// on one key never stops the walk.
pub fn drain_items(
    store: &mut FrontierStore,
    keys: &Vec<String>,
    plan: &FetchPlan,
    now: u64,
) -> (t: Tally)
    requires
        old(store).wf(),
        plan.wf(),
    ensures
        final(store).wf(),
        ({
            let r = drain_run(
                DrainState {
                    items: old(store).items(),
                    details: old(store).details(),
                    succeeded: 0,
                    failed: 0,
                },
                views_of(keys@),
                plan.model(),
            );
            &&& final(store).items() == r.items
            &&& final(store).details() == r.details
            &&& t.succeeded == r.succeeded
            &&& t.failed == r.failed
        }),
        final(store).parents() == old(store).parents(),
        final(store).cursors() == old(store).cursors(),
{
    let ghost s0 = DrainState {
        items: old(store).items(),
        details: old(store).details(),
        succeeded: 0,
        failed: 0,
    };
    let ghost planm = plan.model();
    let mut succeeded: usize = 0;
    let mut failed: usize = 0;
    let n = keys.len();
    let mut idx: usize = 0;
    while idx < n
        invariant
            store.wf(),
            plan.wf(),
            n == keys@.len(),
            idx <= n,
            planm == plan.model(),
            ({
                let r = drain_run(s0, views_of(keys@.take(idx as int)), planm);
                &&& store.items() == r.items
                &&& store.details() == r.details
                &&& succeeded == r.succeeded
                &&& failed == r.failed
            }),
            succeeded + failed <= idx,
            store.parents() == old(store).parents(),
            store.cursors() == old(store).cursors(),
        decreases n - idx,
    {
        let ghost prev = drain_run(s0, views_of(keys@.take(idx as int)), planm);
        let key = &keys[idx];
        let pending = match store.get_item(key) {
            Some(it) => !it.fetched,
            None => false,
        };
        if pending {
            let mut matched = false;
            match plan.outcome(key) {
                Some(o) => match o {
                    ItemOutcome::Record(rec) => {
                        let copy = rec.duplicate();
                        proof {
                            assert(planm.contains_key(key@));
                            assert(planm[key@] is Record);
                            assert(planm[key@]->Record_0 == key@);
                            assert(copy.key@ == key@);
                        }
                        store.upsert_detail(copy);
                        store.complete(key);
                        succeeded += 1;
                        matched = true;
                    },
                    ItemOutcome::FetchFailed(_) => {},
                    ItemOutcome::ExtractFailed(_) => {},
                },
                None => {},
            }
            if !matched {
                failed += 1;
            }
        }
        idx += 1;
        proof {
            let vs = views_of(keys@.take(idx as int));
            assert(vs.len() == idx);
            assert(vs.last() == key@);
            assert(vs.drop_last() =~= views_of(keys@.take(idx - 1)));
            assert(drain_run(s0, vs, planm) == drain_step(prev, key@, planm));
        }
    }
    proof {
        assert(views_of(keys@.take(n as int)) =~= views_of(keys@));
    }
    Tally { succeeded, failed }
}

// ---------------------------------------------------------------------------
// Pointwise laws of the drain fold
// ---------------------------------------------------------------------------

/// A plan whose successful outcomes answer for their own keys.
pub open spec fn plan_keys_own(plan: Map<Seq<char>, OutcomeModel>) -> bool {
    forall|k: Seq<char>|
        #[trigger] plan.contains_key(k) && plan[k] is Record ==> plan[k]->Record_0 == k
}

/// What a drain run does at one key: a pending, successfully fetched key
/// ends completed with its record persisted under the same key; a pending
/// key without a record is untouched; everything else is untouched.
pub proof fn lemma_drain_run_at(
    s: DrainState,
    keys: Seq<Seq<char>>,
    plan: Map<Seq<char>, OutcomeModel>,
    k: Seq<char>,
)
    requires
        plan_keys_own(plan),
    ensures
        ({
            let r = drain_run(s, keys, plan);
            &&& (r.items.contains_key(k) <==> s.items.contains_key(k))
            &&& (keys.contains(k) && s.items.contains_key(k) && !s.items[k].fetched
                && success_at(plan, k)) ==> {
                &&& r.items[k].fetched
                &&& r.items[k].parent == s.items[k].parent
                &&& r.items[k].inserted_at == s.items[k].inserted_at
                &&& r.details.contains_key(k)
                &&& r.details[k] == record_at(plan, k)
            }
            &&& (keys.contains(k) && s.items.contains_key(k) && !s.items[k].fetched
                && !success_at(plan, k)) ==> r.items[k] == s.items[k]
            &&& ((!keys.contains(k) || (s.items.contains_key(k) && s.items[k].fetched))
                && s.items.contains_key(k)) ==> r.items[k] == s.items[k]
            &&& !(keys.contains(k) && s.items.contains_key(k) && !s.items[k].fetched
                && success_at(plan, k)) ==> {
                &&& (r.details.contains_key(k) <==> s.details.contains_key(k))
                &&& (s.details.contains_key(k) ==> r.details[k] == s.details[k])
            }
        }),
    decreases keys.len(),
{
    if keys.len() > 0 {
        let rest = keys.drop_last();
        let last = keys.last();
        let prev = drain_run(s, rest, plan);
        lemma_drain_run_at(s, rest, plan, k);
        assert(keys[keys.len() - 1] == last);
        if !keys.contains(k) {
            assert(!rest.contains(k)) by {
                if rest.contains(k) {
                    let i = choose|i: int| 0 <= i < rest.len() && rest[i] == k;
                    assert(keys[i] == k);
                }
            }
        }
        if keys.contains(k) && k != last {
            let i = choose|i: int| 0 <= i < keys.len() && keys[i] == k;
            assert(i < keys.len() - 1);
            assert(rest[i] == k);
            assert(rest.contains(k));
        }
        if last != k {
            // the last step touches only `last` and its own record key
            if prev.items.contains_key(last) && !prev.items[last].fetched
                && success_at(plan, last) {
                assert(plan[last]->Record_0 == last);
            }
        }
    }
}

/// A drain run that counted no failures fetched a record for every key of
/// the snapshot that was pending when the run began.
pub proof fn lemma_drain_zero_failures(
    s: DrainState,
    keys: Seq<Seq<char>>,
    plan: Map<Seq<char>, OutcomeModel>,
    k: Seq<char>,
)
    requires
        plan_keys_own(plan),
        drain_run(s, keys, plan).failed == s.failed,
        keys.contains(k),
        s.items.contains_key(k),
        !s.items[k].fetched,
    ensures
        success_at(plan, k),
    decreases keys.len(),
{
    let rest = keys.drop_last();
    let last = keys.last();
    let prev = drain_run(s, rest, plan);
    lemma_drain_run_counts(s, rest, plan);
    assert(keys[keys.len() - 1] == last);
    lemma_drain_run_at(s, rest, plan, k);
    if k == last && !rest.contains(k) {
        // first and only occurrence: the step itself decides
        assert(prev.items.contains_key(k) && prev.items[k] == s.items[k]);
        if !success_at(plan, k) {
            assert(drain_run(s, keys, plan).failed == prev.failed + 1);
        }
    } else {
        // k occurs in the rest of the snapshot
        if k == last {
            assert(rest.contains(k));
        } else {
            let i = choose|i: int| 0 <= i < keys.len() && keys[i] == k;
            assert(i < keys.len() - 1);
            assert(rest[i] == k);
            assert(rest.contains(k));
        }
        assert(drain_run(s, keys, plan).failed >= prev.failed) by {
            lemma_drain_run_counts(prev, seq![last], plan);
            assert(drain_run(s, keys, plan) == drain_step(prev, last, plan));
        }
        lemma_drain_zero_failures(s, rest, plan, k);
    }
}

// ---------------------------------------------------------------------------
// Draining one parent
// ---------------------------------------------------------------------------

/// True when the store holds `k` as a pending item of `parent`.
pub open spec fn pending_of(
    items: Map<Seq<char>, ItemModel>,
    parent: Seq<char>,
    k: Seq<char>,
) -> bool {
    items.contains_key(k) && !items[k].fetched && items[k].parent == parent
}

/// Drain every pending work item of one parent once, applying each item's
/// planned outcome, then set the parent's sync flag: synced exactly when
/// the drain saw zero failures, unsynced otherwise.
///
/// One failed item leaves that item pending and the parent unsynced; a
/// later zero-failure drain of the remainder makes the parent synced.
pub fn drain_parent(
    store: &mut FrontierStore,
    parent_key: &String,
    plan: &FetchPlan,
    now: u64,
) -> (t: Tally)
    requires
        old(store).wf(),
        plan.wf(),
    ensures
        final(store).wf(),
        forall|k: Seq<char>|
            #[trigger] final(store).items().contains_key(k) <==> old(store).items().contains_key(
                k,
            ),
        forall|k: Seq<char>|
            pending_of(old(store).items(), parent_key@, k) && success_at(plan.model(), k)
                ==> {
                &&& (#[trigger] final(store).items()[k]).fetched
                &&& final(store).items()[k].parent == old(store).items()[k].parent
                &&& final(store).items()[k].inserted_at == old(store).items()[k].inserted_at
                &&& final(store).details().contains_key(k)
                &&& final(store).details()[k] == record_at(plan.model(), k)
            },
        forall|k: Seq<char>|
            pending_of(old(store).items(), parent_key@, k) && !success_at(plan.model(), k)
                ==> #[trigger] final(store).items()[k] == old(store).items()[k],
        forall|k: Seq<char>|
            old(store).items().contains_key(k) && !pending_of(old(store).items(), parent_key@, k)
                ==> #[trigger] final(store).items()[k] == old(store).items()[k],
        forall|k: Seq<char>|
            !(pending_of(old(store).items(), parent_key@, k) && success_at(plan.model(), k))
                ==> {
                &&& (#[trigger] final(store).details().contains_key(k)
                    <==> old(store).details().contains_key(k))
                &&& (old(store).details().contains_key(k)
                    ==> final(store).details()[k] == old(store).details()[k])
            },
        final(store).parents() == set_synced_spec(
            old(store).parents(),
            parent_key@,
            t.failed == 0,
            now,
        ),
        t.failed == 0 ==> forall|k: Seq<char>|
            final(store).items().contains_key(k)
                && (#[trigger] final(store).items()[k]).parent == parent_key@
                ==> final(store).items()[k].fetched,
        final(store).cursors() == old(store).cursors(),
{
    let ghost items0 = store.items();
    let ghost details0 = store.details();
    let ghost planm = plan.model();
    let pending = store.pending_for_parent(parent_key);
    let ghost snap = views_of(pending@);
    let t = drain_items(store, &pending, plan, now);
    let ghost s0 = DrainState { items: items0, details: details0, succeeded: 0, failed: 0 };
    proof {
        assert(plan_keys_own(planm));
        assert forall|i: int| 0 <= i < snap.len() implies pending_of(
            items0,
            parent_key@,
            #[trigger] snap[i],
        ) by {
            assert(snap[i] == pending@[i]@);
        }
        assert forall|k: Seq<char>| pending_of(items0, parent_key@, k) implies snap.contains(
            k,
        ) by {
            assert(keys_list(pending@, k));
            let i = choose|i: int| 0 <= i < pending@.len() && pending@[i]@ == k;
            assert(snap[i] == k);
        }
        assert forall|k: Seq<char>| !pending_of(items0, parent_key@, k) implies !snap.contains(
            k,
        ) by {
            if snap.contains(k) {
                let i = choose|i: int| 0 <= i < snap.len() && snap[i] == k;
                assert(pending_of(items0, parent_key@, snap[i]));
            }
        }
        assert forall|k: Seq<char>|
            #![trigger store.items().contains_key(k)]
            store.items().contains_key(k) <==> items0.contains_key(k) by {
            lemma_drain_run_at(s0, snap, planm, k);
        }
    }
    if t.failed == 0 {
        proof {
            assert forall|k: Seq<char>| pending_of(items0, parent_key@, k) implies success_at(
                planm,
                k,
            ) by {
                lemma_drain_zero_failures(s0, snap, planm, k);
            }
        }
        store.mark_synced(parent_key, now);
    } else {
        store.mark_unsynced(parent_key, now);
    }
    proof {
        assert forall|k: Seq<char>|
            pending_of(items0, parent_key@, k) && success_at(planm, k) implies {
            &&& (#[trigger] store.items()[k]).fetched
            &&& store.items()[k].parent == items0[k].parent
            &&& store.items()[k].inserted_at == items0[k].inserted_at
            &&& store.details().contains_key(k)
            &&& store.details()[k] == record_at(planm, k)
        } by {
            lemma_drain_run_at(s0, snap, planm, k);
        }
        assert forall|k: Seq<char>|
            pending_of(items0, parent_key@, k) && !success_at(planm, k)
            implies #[trigger] store.items()[k] == items0[k] by {
            lemma_drain_run_at(s0, snap, planm, k);
        }
        assert forall|k: Seq<char>|
            items0.contains_key(k) && !pending_of(items0, parent_key@, k)
            implies #[trigger] store.items()[k] == items0[k] by {
            lemma_drain_run_at(s0, snap, planm, k);
        }
        assert forall|k: Seq<char>|
            !(pending_of(items0, parent_key@, k) && success_at(planm, k)) implies {
            &&& (#[trigger] store.details().contains_key(k) <==> details0.contains_key(k))
            &&& (details0.contains_key(k) ==> store.details()[k] == details0[k])
        } by {
            lemma_drain_run_at(s0, snap, planm, k);
            if pending_of(items0, parent_key@, k) {
            } else {
                if snap.contains(k) {
                    assert(pending_of(items0, parent_key@, k));
                }
            }
        }
        if t.failed == 0 {
            assert forall|k: Seq<char>|
                store.items().contains_key(k) && (#[trigger] store.items()[k]).parent
                    == parent_key@ implies store.items()[k].fetched by {
                lemma_drain_run_at(s0, snap, planm, k);
                if items0[k].fetched {
                } else {
                    if items0[k].parent == parent_key@ {
                        assert(pending_of(items0, parent_key@, k));
                        assert(success_at(planm, k));
                    } else {
                        assert(!snap.contains(k));
                        assert(store.items()[k] == items0[k]);
                    }
                }
            }
        }
    }
    t
}

/// Drain every pending work item of the whole queue once, applying each
/// item's planned outcome; the sync flags are untouched — drivers that
/// track completion per parent use [`drain_parent`].
pub fn drain_queue(store: &mut FrontierStore, plan: &FetchPlan, now: u64) -> (t: Tally)
    requires
        old(store).wf(),
        plan.wf(),
    ensures
        final(store).wf(),
        forall|k: Seq<char>|
            #[trigger] final(store).items().contains_key(k) <==> old(store).items().contains_key(
                k,
            ),
        forall|k: Seq<char>|
            old(store).items().contains_key(k) && !(#[trigger] old(store).items()[k]).fetched
                && success_at(plan.model(), k) ==> {
                &&& final(store).items()[k].fetched
                &&& final(store).items()[k].parent == old(store).items()[k].parent
                &&& final(store).items()[k].inserted_at == old(store).items()[k].inserted_at
                &&& final(store).details().contains_key(k)
                &&& final(store).details()[k] == record_at(plan.model(), k)
            },
        forall|k: Seq<char>|
            old(store).items().contains_key(k) && !(#[trigger] old(store).items()[k]).fetched
                && !success_at(plan.model(), k)
                ==> final(store).items()[k] == old(store).items()[k],
        forall|k: Seq<char>|
            old(store).items().contains_key(k) && (#[trigger] old(store).items()[k]).fetched
                ==> final(store).items()[k] == old(store).items()[k],
        forall|k: Seq<char>|
            #![trigger final(store).details().contains_key(k)]
            !(old(store).items().contains_key(k) && !old(store).items()[k].fetched
                && success_at(plan.model(), k)) ==> {
                &&& (final(store).details().contains_key(k)
                    <==> old(store).details().contains_key(k))
                &&& (old(store).details().contains_key(k)
                    ==> final(store).details()[k] == old(store).details()[k])
            },
        final(store).parents() == old(store).parents(),
        final(store).cursors() == old(store).cursors(),
{
    let ghost items0 = store.items();
    let ghost details0 = store.details();
    let ghost planm = plan.model();
    let pending = store.pending_items();
    let ghost snap = views_of(pending@);
    let t = drain_items(store, &pending, plan, now);
    let ghost s0 = DrainState { items: items0, details: details0, succeeded: 0, failed: 0 };
    proof {
        assert(plan_keys_own(planm));
        assert forall|k: Seq<char>| items0.contains_key(k) && !items0[k].fetched
            implies snap.contains(k) by {
            assert(keys_list(pending@, k));
            let i = choose|i: int| 0 <= i < pending@.len() && pending@[i]@ == k;
            assert(snap[i] == k);
        }
        assert forall|k: Seq<char>| !(items0.contains_key(k) && !items0[k].fetched)
            implies !snap.contains(k) by {
            if snap.contains(k) {
                let i = choose|i: int| 0 <= i < snap.len() && snap[i] == k;
                assert(snap[i] == pending@[i]@);
                assert(items0.contains_key(snap[i]) && !items0[snap[i]].fetched);
            }
        }
        assert forall|k: Seq<char>|
            #![trigger store.items().contains_key(k)]
            store.items().contains_key(k) <==> items0.contains_key(k) by {
            lemma_drain_run_at(s0, snap, planm, k);
        }
        assert forall|k: Seq<char>|
            items0.contains_key(k) && !(#[trigger] items0[k]).fetched && success_at(planm, k)
            implies {
            &&& store.items()[k].fetched
            &&& store.items()[k].parent == items0[k].parent
            &&& store.items()[k].inserted_at == items0[k].inserted_at
            &&& store.details().contains_key(k)
            &&& store.details()[k] == record_at(planm, k)
        } by {
            lemma_drain_run_at(s0, snap, planm, k);
        }
        assert forall|k: Seq<char>|
            items0.contains_key(k) && !(#[trigger] items0[k]).fetched && !success_at(planm, k)
            implies store.items()[k] == items0[k] by {
            lemma_drain_run_at(s0, snap, planm, k);
        }
        assert forall|k: Seq<char>|
            items0.contains_key(k) && (#[trigger] items0[k]).fetched
            implies store.items()[k] == items0[k] by {
            lemma_drain_run_at(s0, snap, planm, k);
        }
        assert(s0 == (DrainState {
            items: old(store).items(),
            details: old(store).details(),
            succeeded: 0,
            failed: 0,
        }));
        assert forall|k: Seq<char>|
            #![trigger store.details().contains_key(k)]
            !(old(store).items().contains_key(k) && !old(store).items()[k].fetched
                && success_at(plan.model(), k)) implies {
            &&& (store.details().contains_key(k) <==> old(store).details().contains_key(k))
            &&& (old(store).details().contains_key(k)
                ==> store.details()[k] == old(store).details()[k])
        } by {
            lemma_drain_run_at(s0, snap, planm, k);
            if old(store).items().contains_key(k) && !old(store).items()[k].fetched {
                assert(items0.contains_key(k) && !items0[k].fetched);
                assert(!success_at(planm, k));
            } else {
                if snap.contains(k) {
                    let i = choose|i: int| 0 <= i < snap.len() && snap[i] == k;
                    assert(snap[i] == pending@[i]@);
                    assert(items0.contains_key(snap[i]) && !items0[snap[i]].fetched);
                }
                assert(!snap.contains(k));
            }
            assert(!(snap.contains(k) && s0.items.contains_key(k) && !s0.items[k].fetched
                && success_at(planm, k)));
        }
    }
    t
}

} // verus!\n