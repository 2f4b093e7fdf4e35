//! Resumable linear pagination: sources with only a strictly ordered page
//! sequence keep one persisted cursor per pipeline.
//!
//! The cursor names the next page to process and advances only after the
//! whole page's records are durably persisted, so a crash costs at most
//! one page of duplicate work — and re-persisting that page is harmless,
//! which is proved below.  A fetch failure halts the sweep without
//! advancing; the next invocation resumes at the very same page.

use vstd::prelude::*;

use crate::error::FetchError;
use crate::store::cursor_value;
use crate::store::DetailModel;
use crate::store::DetailRecord;
use crate::store::FrontierStore;

verus! {

// ---------------------------------------------------------------------------
// Persisting one page
// ---------------------------------------------------------------------------

/// Upserting a batch of records, left to right, each under its own key.
pub open spec fn persist_all(
    details: Map<Seq<char>, DetailModel>,
    recs: Seq<(Seq<char>, DetailModel)>,
) -> Map<Seq<char>, DetailModel>
    decreases recs.len(),
{
    if recs.len() == 0 {
        details
    } else {
        persist_all(details, recs.drop_last()).insert(recs.last().0, recs.last().1)
    }
}

/// True when some record of the batch carries this key.
pub open spec fn batch_has(recs: Seq<(Seq<char>, DetailModel)>, k: Seq<char>) -> bool {
    exists|i: int| 0 <= i < recs.len() && (#[trigger] recs[i]).0 == k
}

/// The value the last record with this key carries.
pub open spec fn batch_last(recs: Seq<(Seq<char>, DetailModel)>, k: Seq<char>) -> DetailModel
    decreases recs.len(),
{
    if recs.len() == 0 {
        arbitrary()
    } else if recs.last().0 == k {
        recs.last().1
    } else {
        batch_last(recs.drop_last(), k)
    }
}

/// What persisting a batch leaves at one key: the batch's last record for
/// that key, or the old row where the batch has none.
pub proof fn lemma_persist_all_at(
    details: Map<Seq<char>, DetailModel>,
    recs: Seq<(Seq<char>, DetailModel)>,
    k: Seq<char>,
)
    ensures
        persist_all(details, recs).contains_key(k) <==> (details.contains_key(k) || batch_has(
            recs,
            k,
        )),
        batch_has(recs, k) ==> persist_all(details, recs)[k] == batch_last(recs, k),
        !batch_has(recs, k) && details.contains_key(k) ==> persist_all(details, recs)[k]
            == details[k],
    decreases recs.len(),
{
    if recs.len() > 0 {
        let rest = recs.drop_last();
        lemma_persist_all_at(details, rest, k);
        assert(recs[recs.len() - 1] == recs.last());
        if batch_has(rest, k) {
            let i = choose|i: int| 0 <= i < rest.len() && (#[trigger] rest[i]).0 == k;
            assert(recs[i].0 == k);
        }
        if batch_has(recs, k) && recs.last().0 != k {
            let i = choose|i: int| 0 <= i < recs.len() && (#[trigger] recs[i]).0 == k;
            assert(i < recs.len() - 1);
            assert(rest[i].0 == k);
        }
        if !batch_has(recs, k) {
            assert(!batch_has(rest, k)) by {
                if batch_has(rest, k) {
                    let i = choose|i: int| 0 <= i < rest.len() && (#[trigger] rest[i]).0 == k;
                    assert(recs[i].0 == k);
                }
            }
        }
    }
}

/// Idempotent re-persist: writing one page's records a second time — as a
/// crashed run does when it resumes on the page it had already persisted —
/// changes nothing.  No duplicate rows can arise: the table is keyed by
/// the records' natural keys.
pub proof fn lemma_repersist_idempotent(
    details: Map<Seq<char>, DetailModel>,
    recs: Seq<(Seq<char>, DetailModel)>,
)
    ensures
        persist_all(persist_all(details, recs), recs) == persist_all(details, recs),
{
    let once = persist_all(details, recs);
    let twice = persist_all(once, recs);
    assert forall|k: Seq<char>| #[trigger] twice.contains_key(k) <==> once.contains_key(k) by {
        lemma_persist_all_at(details, recs, k);
        lemma_persist_all_at(once, recs, k);
    }
    assert forall|k: Seq<char>| once.contains_key(k) implies #[trigger] twice[k] == once[k] by {
        lemma_persist_all_at(details, recs, k);
        lemma_persist_all_at(once, recs, k);
    }
    assert(twice =~= once);
}

// ---------------------------------------------------------------------------
// The sweep
// ---------------------------------------------------------------------------

/// What fetching one page of the ordered sequence produced.
pub enum PageResult {
    /// The page's extracted records, ready to persist.
    Page(Vec<DetailRecord>),
    /// The fetch failed: the sweep halts here and resumes here next time.
    Failed(FetchError),
}

/// The mathematical value of a [`PageResult`].
pub enum PageModel {
    Page(Seq<(Seq<char>, DetailModel)>),
    Failed(FetchError),
}

/// The keyed records of a page, in order.
pub open spec fn recs_model(rs: Seq<DetailRecord>) -> Seq<(Seq<char>, DetailModel)> {
    rs.map_values(|r: DetailRecord| (r.key@, r.model()))
}

impl PageResult {
    pub open spec fn model(self) -> PageModel {
        match self {
            PageResult::Page(rs) => PageModel::Page(recs_model(rs@)),
            PageResult::Failed(e) => PageModel::Failed(e),
        }
    }
}

/// The pages of a sweep plan, in page order: entry `i` is page `i + 1`.
pub open spec fn pages_model(ps: Seq<PageResult>) -> Seq<PageModel> {
    ps.map_values(|p: PageResult| p.model())
}

/// Where a sweep stands when it stops: the rows persisted so far, the
/// zero-based index of the next page, and the failure that halted it, if
/// one did.
pub struct SweepState {
    pub details: Map<Seq<char>, DetailModel>,
    pub next: int,
    pub halted: Option<FetchError>,
}

/// A sweep from page index `i` on: persist page after page until the
/// pages run out or one fails; a failing page is not persisted and the
/// sweep stops in front of it.
pub open spec fn sweep_from(
    details: Map<Seq<char>, DetailModel>,
    pages: Seq<PageModel>,
    i: int,
) -> SweepState
    decreases pages.len() - i
        when 0 <= i

{
    if !(0 <= i < pages.len()) {
        SweepState { details, next: i, halted: None }
    } else {
        match pages[i] {
            PageModel::Page(rs) => sweep_from(persist_all(details, rs), pages, i + 1),
            PageModel::Failed(e) => SweepState { details, next: i, halted: Some(e) },
        }
    }
}

/// Run one sweep invocation: resume at the pipeline's cursor, persist each
/// page's records and advance the cursor only then; halt on the first
/// fetch failure without advancing.  Returns the page count on a full
/// sweep, or the failure.  Reissuing the same call is always the correct
/// recovery action.
pub fn run_page_sweep(
    store: &mut FrontierStore,
    pipeline: &String,
    plan: &Vec<PageResult>,
    now: u64,
) -> (r: Result<u32, FetchError>)
    requires
        old(store).wf(),
        plan@.len() < 0xFFFF_FFFF,
        cursor_value(old(store).cursors(), pipeline@) >= 1,
    ensures
        final(store).wf(),
        ({
            let st = sweep_from(
                old(store).details(),
                pages_model(plan@),
                cursor_value(old(store).cursors(), pipeline@) - 1,
            );
            &&& final(store).details() == st.details
            &&& cursor_value(final(store).cursors(), pipeline@) == st.next + 1
            &&& match r {
                Ok(pages) => st.halted is None && pages == plan@.len(),
                Err(e) => st.halted == Some(e),
            }
        }),
        forall|q: Seq<char>| q != pipeline@ ==> {
            &&& (#[trigger] final(store).cursors().contains_key(q)
                <==> old(store).cursors().contains_key(q))
            &&& (old(store).cursors().contains_key(q)
                ==> final(store).cursors()[q] == old(store).cursors()[q])
        },
        cursor_value(final(store).cursors(), pipeline@)
            >= cursor_value(old(store).cursors(), pipeline@),
        final(store).items() == old(store).items(),
        final(store).parents() == old(store).parents(),
{
    let ghost d0 = old(store).details();
    let ghost pm = pages_model(plan@);
    let ghost c0 = cursor_value(old(store).cursors(), pipeline@) as int;
    let total: u32 = plan.len() as u32;
    let mut page: u32 = store.read_cursor(pipeline);
    let ghost cursors0 = store.cursors();
    while page <= total
        invariant
            store.wf(),
            total == plan@.len(),
            plan@.len() < 0xFFFF_FFFF,
            pm == pages_model(plan@),
            d0 == old(store).details(),
            c0 == cursor_value(old(store).cursors(), pipeline@) as int,
            c0 >= 1,
            cursors0 == old(store).cursors(),
            1 <= page,
            page == c0 || page <= total + 1,
            page >= c0,
            cursor_value(store.cursors(), pipeline@) == page,
            sweep_from(d0, pm, c0 - 1) == sweep_from(store.details(), pm, page - 1),
            forall|q: Seq<char>| q != pipeline@ ==> {
                &&& (#[trigger] store.cursors().contains_key(q) <==> cursors0.contains_key(q))
                &&& (cursors0.contains_key(q) ==> store.cursors()[q] == cursors0[q])
            },
            store.items() == old(store).items(),
            store.parents() == old(store).parents(),
        decreases total + 1 - page,
    {
        let idx = (page - 1) as usize;
        let ghost dpage = store.details();
        match &plan[idx] {
            PageResult::Page(recs) => {
                let ghost cpage = store.cursors();
                let m = recs.len();
                let mut j: usize = 0;
                while j < m
                    invariant
                        store.wf(),
                        m == recs@.len(),
                        j <= m,
                        store.details() == persist_all(dpage, recs_model(recs@.take(j as int))),
                        store.items() == old(store).items(),
                        store.parents() == old(store).parents(),
                        store.cursors() == cpage,
                    decreases m - j,
                {
                    let ghost before = store.details();
                    store.upsert_detail(recs[j].duplicate());
                    j += 1;
                    proof {
                        let rm = recs_model(recs@.take(j as int));
                        assert(rm.len() == j);
                        assert(rm.last() == (recs@[j - 1].key@, recs@[j - 1].model()));
                        assert(rm.drop_last() =~= recs_model(recs@.take(j - 1)));
                        assert(store.details() == persist_all(dpage, rm));
                    }
                }
                proof {
                    assert(recs_model(recs@.take(m as int)) =~= recs_model(recs@));
                    assert(pm[page - 1] == PageModel::Page(recs_model(recs@)));
                }
                store.advance_cursor(pipeline, page + 1);
                page += 1;
            },
            PageResult::Failed(e) => {
                proof {
                    assert(pm[page - 1] == PageModel::Failed(*e));
                    assert(sweep_from(store.details(), pm, page - 1) == SweepState {
                        details: store.details(),
                        next: page - 1,
                        halted: Some(*e),
                    });
                }
                return Err(*e);
            },
        }
    }
    proof {
        assert(sweep_from(store.details(), pm, page - 1) == SweepState {
            details: store.details(),
            next: page - 1,
            halted: None,
        });
    }
    Ok(total)
}

} // verus!
