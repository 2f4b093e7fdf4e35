//! The discovery stage: walk a source's paginated directory, upsert one
//! parent collection per entry and enqueue the parent's child work items.
//!
//! The extractor hands each directory entry over as a value, malformed
//! entries as errors.  A malformed entry is skipped and counted and never
//! aborts the rest of the page; a page-fetch failure ends the discovery
//! run, which is cheap to re-walk in full.

use vstd::prelude::*;

use crate::error::ExtractError;
use crate::error::FetchError;
use crate::store::enqueue_all;
use crate::store::upsert_parent_spec;
use crate::store::views_of;
use crate::store::FrontierStore;
use crate::store::ItemModel;
use crate::store::ParentModel;
use crate::text::decoded_of;
use crate::text::normalize_title;
use crate::text::trim_spec;
use crate::Tally;

verus! {

// ---------------------------------------------------------------------------
// Directory entries and pages
// ---------------------------------------------------------------------------

/// One well-formed directory entry: a parent collection and the natural
/// keys of its child work items.
pub struct ParentEntry {
    pub key: String,
    pub name: String,
    pub series: String,
    pub children: Vec<String>,
}

/// The mathematical value of a [`ParentEntry`].
pub struct EntryModel {
    pub key: Seq<char>,
    pub name: Seq<char>,
    pub series: Seq<char>,
    pub children: Seq<Seq<char>>,
}

impl ParentEntry {
    pub open spec fn model(self) -> EntryModel {
        EntryModel {
            key: self.key@,
            name: self.name@,
            series: self.series@,
            children: views_of(self.children@),
        }
    }
}

/// One extracted directory entry, or why it was unusable.
pub enum EntryOutcome {
    Entry(EntryModel),
    Skip(ExtractError),
}

/// The outcomes of a page's entries, in page order.
pub open spec fn entries_model(es: Seq<Result<ParentEntry, ExtractError>>) -> Seq<EntryOutcome> {
    es.map_values(
        |e: Result<ParentEntry, ExtractError>|
            match e {
                Ok(p) => EntryOutcome::Entry(p.model()),
                Err(err) => EntryOutcome::Skip(err),
            },
    )
}

/// One fetched directory page: its entries and the link to the next page,
/// if the page has one.
pub struct DirectoryPage {
    pub entries: Vec<Result<ParentEntry, ExtractError>>,
    pub next: Option<String>,
}

// ---------------------------------------------------------------------------
// The discovery fold
// ---------------------------------------------------------------------------

/// The tables discovery writes, with its tally.
pub struct DiscoveryState {
    pub parents: Map<Seq<char>, ParentModel>,
    pub items: Map<Seq<char>, ItemModel>,
    pub discovered: nat,
    pub skipped: nat,
}

/// Applying one entry: upsert the parent — its title trimmed and its HTML
/// entities decoded — and enqueue its children; a malformed entry only
/// counts as skipped.
pub open spec fn discover_step(s: DiscoveryState, e: EntryOutcome, now: u64) -> DiscoveryState {
    match e {
        EntryOutcome::Entry(entry) => DiscoveryState {
            parents: upsert_parent_spec(
                s.parents,
                entry.key,
                decoded_of(trim_spec(entry.name)),
                entry.series,
                now,
            ),
            items: enqueue_all(s.items, entry.key, entry.children, now),
            discovered: s.discovered + 1,
            skipped: s.skipped,
        },
        EntryOutcome::Skip(_) => DiscoveryState { skipped: s.skipped + 1, ..s },
    }
}

/// Applying a whole page of entries, left to right.
pub open spec fn discover_run(
    s: DiscoveryState,
    es: Seq<EntryOutcome>,
    now: u64,
) -> DiscoveryState
    decreases es.len(),
{
    if es.len() == 0 {
        s
    } else {
        discover_step(discover_run(s, es.drop_last(), now), es.last(), now)
    }
}

/// A discovery run accounts for every entry: one discovered or one skip
/// each, and a skip exactly for the malformed ones.
pub proof fn lemma_discover_run_counts(s: DiscoveryState, es: Seq<EntryOutcome>, now: u64)
    ensures
        discover_run(s, es, now).discovered + discover_run(s, es, now).skipped == s.discovered
            + s.skipped + es.len(),
        discover_run(s, es, now).discovered >= s.discovered,
        discover_run(s, es, now).skipped >= s.skipped,
    decreases es.len(),
{
    if es.len() > 0 {
        lemma_discover_run_counts(s, es.drop_last(), now);
    }
}

/// Partial-failure isolation: every well-formed entry of the page ends up
/// as a parent row, however many of its neighbours were malformed.
pub proof fn lemma_discover_run_persists(
    s: DiscoveryState,
    es: Seq<EntryOutcome>,
    now: u64,
    i: int,
)
    requires
        0 <= i < es.len(),
        es[i] is Entry,
    ensures
        discover_run(s, es, now).parents.contains_key(es[i]->Entry_0.key),
    decreases es.len(),
{
    let rest = es.drop_last();
    assert(es[es.len() - 1] == es.last());
    if i == es.len() - 1 {
    } else {
        assert(rest[i] == es[i]);
        lemma_discover_run_persists(s, rest, now, i);
        // a later entry only adds or overwrites rows, never removes one
    }
}

// ---------------------------------------------------------------------------
// The executable stage
// ---------------------------------------------------------------------------

/// Apply one directory page to the store: upsert a parent per well-formed
/// entry, enqueue its children, and count each malformed entry as one
/// skip.  The tally accounts for every entry of the page.
pub fn process_directory_page(store: &mut FrontierStore, page: &DirectoryPage, now: u64) -> (t:
    Tally)
    requires
        old(store).wf(),
    ensures
        final(store).wf(),
        ({
            let r = discover_run(
                DiscoveryState {
                    parents: old(store).parents(),
                    items: old(store).items(),
                    discovered: 0,
                    skipped: 0,
                },
                entries_model(page.entries@),
                now,
            );
            &&& final(store).parents() == r.parents
            &&& final(store).items() == r.items
            &&& t.succeeded == r.discovered
            &&& t.failed == r.skipped
        }),
        t.succeeded + t.failed == page.entries@.len(),
        final(store).details() == old(store).details(),
        final(store).cursors() == old(store).cursors(),
{
    let ghost s0 = DiscoveryState {
        parents: old(store).parents(),
        items: old(store).items(),
        discovered: 0,
        skipped: 0,
    };
    let ghost em = entries_model(page.entries@);
    let mut discovered: usize = 0;
    let mut skipped: usize = 0;
    let n = page.entries.len();
    let mut idx: usize = 0;
    while idx < n
        invariant
            store.wf(),
            n == page.entries@.len(),
            idx <= n,
            em == entries_model(page.entries@),
            s0.parents == old(store).parents(),
            s0.items == old(store).items(),
            s0.discovered == 0,
            s0.skipped == 0,
            ({
                let r = discover_run(s0, em.take(idx as int), now);
                &&& store.parents() == r.parents
                &&& store.items() == r.items
                &&& discovered == r.discovered
                &&& skipped == r.skipped
            }),
            discovered + skipped == idx,
            store.details() == old(store).details(),
            store.cursors() == old(store).cursors(),
        decreases n - idx,
    {
        let ghost prev = discover_run(s0, em.take(idx as int), now);
        match &page.entries[idx] {
            Ok(entry) => {
                let title = normalize_title(entry.name.as_str());
                store.upsert_parent(&entry.key, &title, &entry.series, now);
                store.enqueue(&entry.key, &entry.children, now);
                discovered += 1;
                proof {
                    assert(em[idx as int] == EntryOutcome::Entry(page.entries@[idx as int]->Ok_0.model()));
                }
            },
            Err(_) => {
                skipped += 1;
                proof {
                    assert(em[idx as int] == EntryOutcome::Skip(
                        page.entries@[idx as int]->Err_0,
                    ));
                }
            },
        }
        idx += 1;
        proof {
            let cur = em.take(idx as int);
            assert(cur.len() == idx);
            assert(cur.last() == em[idx - 1]);
            assert(cur.drop_last() =~= em.take(idx - 1));
            assert(discover_run(s0, cur, now) == discover_step(prev, em[idx - 1], now));
        }
    }
    proof {
        assert(em.take(n as int) =~= em);
    }
    Tally { succeeded: discovered, failed: skipped }
}

/// One fetched directory page of a walk, or the failure that ended it.
pub enum WalkPageModel {
    Page(Seq<EntryOutcome>),
    Failed(FetchError),
}

/// The models of a walk's pages, in walk order.
pub open spec fn walk_model(ps: Seq<Result<DirectoryPage, FetchError>>) -> Seq<WalkPageModel> {
    ps.map_values(
        |p: Result<DirectoryPage, FetchError>|
            match p {
                Ok(page) => WalkPageModel::Page(entries_model(page.entries@)),
                Err(e) => WalkPageModel::Failed(e),
            },
    )
}

/// The entry count of a walk page; a failed fetch counts none.
pub open spec fn page_entry_count(p: WalkPageModel) -> int {
    match p {
        WalkPageModel::Page(es) => es.len() as int,
        WalkPageModel::Failed(_) => 0,
    }
}

/// How many entries the first `i` pages of a walk carry.
pub open spec fn walk_entry_count(pages: Seq<WalkPageModel>, i: int) -> int
    decreases i when i >= 0
{
    if i <= 0 {
        0
    } else {
        walk_entry_count(pages, i - 1) + page_entry_count(pages[i - 1])
    }
}

/// A longer prefix never carries fewer entries.
proof fn lemma_walk_entry_count_mono(pages: Seq<WalkPageModel>, i: int, j: int)
    requires
        0 <= i <= j,
    ensures
        walk_entry_count(pages, i) <= walk_entry_count(pages, j),
    decreases j - i,
{
    if i < j {
        lemma_walk_entry_count_mono(pages, i, j - 1);
    }
}

/// Where a directory walk stands when it stops: the state written so
/// far, the index of the next page, and the failure that ended it, if
/// one did.
pub struct WalkState {
    pub state: DiscoveryState,
    pub next: int,
    pub halted: Option<FetchError>,
}

/// A walk from page index `i` on: apply page after page until the pages
/// run out or one of them failed to fetch; the failing page writes
/// nothing and the walk stops in front of it.
pub open spec fn walk_from(s: DiscoveryState, pages: Seq<WalkPageModel>, i: int, now: u64) -> WalkState
    decreases pages.len() - i
        when 0 <= i
{
    if !(0 <= i < pages.len()) {
        WalkState { state: s, next: i, halted: None }
    } else {
        match pages[i] {
            WalkPageModel::Page(es) => walk_from(discover_run(s, es, now), pages, i + 1, now),
            WalkPageModel::Failed(e) => WalkState { state: s, next: i, halted: Some(e) },
        }
    }
}

/// Walk a run of fetched directory pages in order, stopping at the first
/// page whose fetch failed: directory pages are cheap to re-walk, so a
/// fetch failure is fatal to this discovery run alone.  The pages before
/// the failure keep what they wrote.
pub fn run_discovery(
    store: &mut FrontierStore,
    pages: &Vec<Result<DirectoryPage, FetchError>>,
    now: u64,
) -> (r: Result<Tally, FetchError>)
    requires
        old(store).wf(),
        walk_entry_count(walk_model(pages@), pages@.len() as int) <= usize::MAX,
    ensures
        final(store).wf(),
        ({
            let w = walk_from(
                DiscoveryState {
                    parents: old(store).parents(),
                    items: old(store).items(),
                    discovered: 0,
                    skipped: 0,
                },
                walk_model(pages@),
                0,
                now,
            );
            &&& final(store).parents() == w.state.parents
            &&& final(store).items() == w.state.items
            &&& match r {
                Ok(t) => {
                    &&& w.halted is None
                    &&& t.succeeded == w.state.discovered
                    &&& t.failed == w.state.skipped
                },
                Err(e) => w.halted == Some(e),
            }
        }),
        final(store).details() == old(store).details(),
        final(store).cursors() == old(store).cursors(),
{
    let ghost s0 = DiscoveryState {
        parents: old(store).parents(),
        items: old(store).items(),
        discovered: 0,
        skipped: 0,
    };
    let ghost pm = walk_model(pages@);
    let mut discovered: usize = 0;
    let mut skipped: usize = 0;
    let n = pages.len();
    let mut idx: usize = 0;
    while idx < n
        invariant
            store.wf(),
            n == pages@.len(),
            idx <= n,
            pm == walk_model(pages@),
            s0.parents == old(store).parents(),
            s0.items == old(store).items(),
            s0.discovered == 0,
            s0.skipped == 0,
            discovered + skipped <= walk_entry_count(pm, idx as int),
            walk_entry_count(pm, n as int) <= usize::MAX,
            ({
                let cur = DiscoveryState {
                    parents: store.parents(),
                    items: store.items(),
                    discovered: discovered as nat,
                    skipped: skipped as nat,
                };
                walk_from(s0, pm, 0, now) == walk_from(cur, pm, idx as int, now)
            }),
            store.details() == old(store).details(),
            store.cursors() == old(store).cursors(),
        decreases n - idx,
    {
        let ghost cur0 = DiscoveryState {
            parents: store.parents(),
            items: store.items(),
            discovered: discovered as nat,
            skipped: skipped as nat,
        };
        match &pages[idx] {
            Ok(page) => {
                proof {
                    assert(pm[idx as int] == WalkPageModel::Page(entries_model(page.entries@)));
                }
                let t = process_directory_page(store, page, now);
                proof {
                    lemma_discover_run_counts(cur0, entries_model(page.entries@), now);
                    lemma_discover_run_shift(
                        s0,
                        cur0,
                        entries_model(page.entries@),
                        now,
                    );
                    assert(walk_entry_count(pm, idx + 1) == walk_entry_count(pm, idx as int)
                        + page_entry_count(pm[idx as int]));
                    lemma_walk_entry_count_mono(pm, idx + 1, n as int);
                }
                discovered += t.succeeded;
                skipped += t.failed;
                idx += 1;
                proof {
                    let cur = DiscoveryState {
                        parents: store.parents(),
                        items: store.items(),
                        discovered: discovered as nat,
                        skipped: skipped as nat,
                    };
                    assert(cur == discover_run(cur0, entries_model(page.entries@), now));
                    assert(walk_from(cur0, pm, idx - 1, now) == walk_from(cur, pm, idx as int, now));
                }
            },
            Err(e) => {
                proof {
                    assert(pm[idx as int] == WalkPageModel::Failed(*e));
                    assert(walk_from(cur0, pm, idx as int, now) == WalkState {
                        state: cur0,
                        next: idx as int,
                        halted: Some(*e),
                    });
                }
                return Err(*e);
            },
        }
    }
    Ok(Tally { succeeded: discovered, failed: skipped })
}

/// Counting from zero and counting from a running tally agree; the loop
/// adds each page's own tally onto its running one.
proof fn lemma_discover_run_shift(s0: DiscoveryState, cur: DiscoveryState, es: Seq<EntryOutcome>, now: u64)
    ensures
        ({
            let from_zero = discover_run(
                DiscoveryState { parents: cur.parents, items: cur.items, discovered: 0, skipped: 0 },
                es,
                now,
            );
            let threaded = discover_run(cur, es, now);
            &&& threaded.parents == from_zero.parents
            &&& threaded.items == from_zero.items
            &&& threaded.discovered == cur.discovered + from_zero.discovered
            &&& threaded.skipped == cur.skipped + from_zero.skipped
        }),
    decreases es.len(),
{
    if es.len() > 0 {
        lemma_discover_run_shift(s0, cur, es.drop_last(), now);
    }
}

} // verus!
