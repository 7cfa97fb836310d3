use crate::event::{ActionId, EventSource, EventWait, SleeperId, SourceView, WaitView};
use vstd::prelude::*;

verus! {

/// Why a multiplexed wait cannot start.
#[derive(PartialEq, Eq, Structural, Debug, Clone, Copy)]
pub enum WaitError {
    /// The list of waits is empty: there is nothing to wait for.
    NothingToWaitOn,
}

/// What the caller of [`wait_on_list`] does next.
#[derive(PartialEq, Eq, Structural, Debug, Clone, Copy)]
pub enum WaitStep {
    /// No wait is ready yet: block on the sleep object, then drain.
    Block,
    /// A wait is already ready: drain without blocking.
    Drain,
}

pub open spec fn source_views(t: Seq<EventSource>) -> Seq<SourceView> {
    t.map_values(|s: EventSource| s@)
}

pub open spec fn wait_views(ws: Seq<EventWait>) -> Seq<WaitView> {
    ws.map_values(|w: EventWait| w@)
}

/// No two sources of the table share an identifier.
pub open spec fn table_wf(t: Seq<SourceView>) -> bool {
    forall|i: int, j: int| 0 <= i < t.len() && 0 <= j < t.len() && i != j ==> t[i].id != t[j].id
}

/// Some source of the table has the identifier `id`.
pub open spec fn in_table(t: Seq<SourceView>, id: u64) -> bool {
    exists|k: int| 0 <= k < t.len() && t[k].id == id
}

/// Every wait names a source of the table.
pub open spec fn covers(t: Seq<SourceView>, ws: Seq<WaitView>) -> bool {
    forall|i: int| 0 <= i < ws.len() ==> in_table(t, #[trigger] ws[i].source)
}

/// The source of the table with identifier `id` has been triggered.
pub open spec fn ready_in_table(t: Seq<SourceView>, id: u64) -> bool {
    exists|k: int| 0 <= k < t.len() && t[k].id == id && t[k].ready
}

pub open spec fn wait_ready(t: Seq<SourceView>, w: WaitView) -> bool {
    w.valid() && ready_in_table(t, w.source)
}

pub open spec fn any_ready(t: Seq<SourceView>, ws: Seq<WaitView>) -> bool {
    exists|i: int| 0 <= i < ws.len() && wait_ready(t, ws[i])
}

/// Some wait of the list is bound to the source `id`.
pub open spec fn named_by(ws: Seq<WaitView>, id: u64) -> bool {
    exists|i: int| 0 <= i < ws.len() && ws[i].source == id
}

/// The table after every wait of `ws` has bound `sleeper` to its source.
pub open spec fn bind_all(t: Seq<SourceView>, ws: Seq<WaitView>, sleeper: SleeperId) -> Seq<SourceView> {
    Seq::new(t.len(), |k: int| if named_by(ws, t[k].id) { t[k].bound(sleeper) } else { t[k] })
}

/// A wait after draining: spent if it was ready, untouched otherwise.
pub open spec fn drained(t: Seq<SourceView>, w: WaitView) -> WaitView {
    if wait_ready(t, w) { w.completed() } else { w }
}

/// The actions that draining runs: those of each ready wait, in list order.
pub open spec fn ready_actions(t: Seq<SourceView>, ws: Seq<WaitView>) -> Seq<ActionId>
    decreases ws.len(),
{
    if ws.len() == 0 {
        Seq::empty()
    } else {
        let last = ws.last();
        ready_actions(t, ws.drop_last()) + if wait_ready(t, last) { last.actions() } else { Seq::empty() }
    }
}

/// Finds the position of the source named `id`.
fn find_source(sources: &Vec<EventSource>, id: u64) -> (r: usize)
    requires
        in_table(source_views(sources@), id),
    ensures
        r < sources@.len(),
        sources@[r as int]@.id == id,
{
    let mut k: usize = 0;
    while k < sources.len()
        invariant
            in_table(source_views(sources@), id),
            forall|j: int| 0 <= j < k ==> sources@[j]@.id != id,
        decreases sources.len() - k,
    {
        if sources[k].id() == id {
            return k;
        }
        k = k + 1;
    }
    proof {
        let t = source_views(sources@);
        let w = choose|j: int| 0 <= j < t.len() && t[j].id == id;
        assert(sources@[w]@.id == id);
    }
    0
}

/// Starts a multiplexed wait on `waiters`, whose sources stand in `sources`.
///
/// Binds `sleeper` as the waiter of every source that a wait names, then checks
/// readiness again, so that a trigger that came before or during the binding is
/// not lost: `Drain` when some wait is already ready, `Block` otherwise. An
/// empty list is refused and changes nothing.
pub fn wait_on_list(
    waiters: &Vec<EventWait>,
    sources: &mut Vec<EventSource>,
    sleeper: SleeperId,
) -> (r: Result<WaitStep, WaitError>)
    requires
        table_wf(source_views(old(sources)@)),
        covers(source_views(old(sources)@), wait_views(waiters@)),
    ensures
        waiters@.len() == 0 <==> r == Err::<WaitStep, WaitError>(WaitError::NothingToWaitOn),
        waiters@.len() == 0 ==> final(sources)@ == old(sources)@,
        waiters@.len() > 0 ==> source_views(final(sources)@) == bind_all(
            source_views(old(sources)@),
            wait_views(waiters@),
            sleeper,
        ),
        r == Ok::<WaitStep, WaitError>(WaitStep::Drain) <==> waiters@.len() > 0 && any_ready(
            source_views(old(sources)@),
            wait_views(waiters@),
        ),
{
    if waiters.len() == 0 {
        return Err(WaitError::NothingToWaitOn);
    }
    let ghost t0 = source_views(old(sources)@);
    let ghost ws = wait_views(waiters@);
    let mut i: usize = 0;
    while i < waiters.len()
        invariant
            0 <= i <= waiters@.len(),
            ws == wait_views(waiters@),
            t0 == source_views(old(sources)@),
            table_wf(t0),
            covers(t0, ws),
            sources@.len() == t0.len(),
            forall|k: int|
                0 <= k < t0.len() ==> #[trigger] sources@[k]@ == if named_by(ws.take(i as int), t0[k].id) {
                    t0[k].bound(sleeper)
                } else {
                    t0[k]
                },
        decreases waiters@.len() - i,
    {
        proof {
            assert forall|k: int| 0 <= k < t0.len() implies #[trigger] source_views(sources@)[k].id == t0[k].id by {
                assert(sources@[k]@.id == t0[k].id);
            }
            assert(in_table(t0, ws[i as int].source));
            let w = choose|k: int| 0 <= k < t0.len() && t0[k].id == ws[i as int].source;
            assert(source_views(sources@)[w].id == ws[i as int].source);
        }
        let p = find_source(sources, waiters[i].source());
        let ghost before = sources@;
        waiters[i].bind_signal(&mut sources[p], sleeper);
        proof {
            let pre = ws.take(i as int);
            let pre1 = ws.take(i + 1);
            assert(pre1[i as int] == ws[i as int]);
            assert forall|k: int| 0 <= k < t0.len() implies #[trigger] sources@[k]@ == if named_by(pre1, t0[k].id) {
                t0[k].bound(sleeper)
            } else {
                t0[k]
            } by {
                if k == p {
                    assert(t0[k].id == ws[i as int].source);
                    assert(named_by(pre1, t0[k].id));
                } else {
                    assert(sources@[k] == before[k]);
                    assert(t0[k].id != t0[p as int].id);
                    if named_by(pre1, t0[k].id) {
                        let j = choose|j: int| 0 <= j < pre1.len() && #[trigger] pre1[j].source == t0[k].id;
                        assert(j != i);
                        assert(pre[j] == pre1[j]);
                    }
                    if named_by(pre, t0[k].id) {
                        let j = choose|j: int| 0 <= j < pre.len() && #[trigger] pre[j].source == t0[k].id;
                        assert(pre[j] == pre1[j]);
                    }
                }
            }
        }
        i = i + 1;
    }
    proof {
        assert(ws.take(ws.len() as int) =~= ws);
        assert(source_views(sources@) =~= bind_all(t0, ws, sleeper));
    }
    let mut j: usize = 0;
    while j < waiters.len()
        invariant
            0 <= j <= waiters@.len(),
            ws == wait_views(waiters@),
            source_views(sources@) == bind_all(t0, ws, sleeper),
            t0 == source_views(old(sources)@),
            table_wf(t0),
            covers(t0, ws),
            sources@.len() == t0.len(),
            forall|m: int| 0 <= m < j ==> !wait_ready(t0, #[trigger] ws[m]),
        decreases waiters@.len() - j,
    {
        let ghost t1 = source_views(sources@);
        proof {
            assert(in_table(t0, ws[j as int].source));
            let w = choose|k: int| 0 <= k < t0.len() && t0[k].id == ws[j as int].source;
            assert(t1[w].id == ws[j as int].source);
        }
        let p = find_source(sources, waiters[j].source());
        if waiters[j].is_ready(&sources[p]) {
            proof {
                assert(t1[p as int] == sources@[p as int]@);
                assert(t0[p as int].ready == t1[p as int].ready);
                assert(wait_ready(t0, ws[j as int]));
            }
            return Ok(WaitStep::Drain);
        }
        proof {
            if wait_ready(t0, ws[j as int]) {
                let k = choose|k: int| 0 <= k < t0.len() && t0[k].id == ws[j as int].source && t0[k].ready;
                assert(t1[k].id == t0[k].id && t1[k].ready);
                assert(t1[p as int] == sources@[p as int]@);
                assert(t1[p as int].id == t0[p as int].id);
                assert(k == p);
            }
        }
        j = j + 1;
    }
    Ok(WaitStep::Block)
}

/// Finishes a multiplexed wait once the caller is awake: runs the completion of
/// every wait that is ready now, not only the one that caused the wake, and
/// returns their actions in list order. Waits that are not ready stay armed.
pub fn complete_ready(waiters: &mut Vec<EventWait>, sources: &Vec<EventSource>) -> (r: Vec<ActionId>)
    requires
        table_wf(source_views(sources@)),
        covers(source_views(sources@), wait_views(old(waiters)@)),
    ensures
        final(waiters)@.len() == old(waiters)@.len(),
        forall|i: int|
            0 <= i < old(waiters)@.len() ==> #[trigger] final(waiters)@[i]@ == drained(
                source_views(sources@),
                old(waiters)@[i]@,
            ),
        r@ == ready_actions(source_views(sources@), wait_views(old(waiters)@)),
{
    let ghost t = source_views(sources@);
    let ghost ws = wait_views(old(waiters)@);
    let mut log: Vec<ActionId> = Vec::new();
    let mut i: usize = 0;
    while i < waiters.len()
        invariant
            0 <= i <= waiters@.len(),
            waiters@.len() == ws.len(),
            t == source_views(sources@),
            ws == wait_views(old(waiters)@),
            table_wf(t),
            covers(t, ws),
            forall|m: int| 0 <= m < i ==> #[trigger] waiters@[m]@ == drained(t, ws[m]),
            forall|m: int| i <= m < ws.len() ==> #[trigger] waiters@[m]@ == ws[m],
            log@ == ready_actions(t, ws.take(i as int)),
        decreases ws.len() - i,
    {
        proof {
            assert(waiters@[i as int]@ == ws[i as int]);
            assert(in_table(t, ws[i as int].source));
        }
        let p = find_source(sources, waiters[i].source());
        let ghost before = waiters@;
        proof {
            assert(ws.take(i + 1).drop_last() =~= ws.take(i as int));
            assert(ws.take(i + 1).last() == ws[i as int]);
        }
        if waiters[i].is_ready(&sources[p]) {
            proof {
                assert(t[p as int] == sources@[p as int]@);
                assert(wait_ready(t, ws[i as int]));
            }
            let mut actions = waiters[i].run_completion();
            log.append(&mut actions);
        } else {
            proof {
                if wait_ready(t, ws[i as int]) {
                    let k = choose|k: int| 0 <= k < t.len() && t[k].id == ws[i as int].source && t[k].ready;
                    assert(t[p as int] == sources@[p as int]@);
                    assert(t[k] == sources@[k]@);
                    assert(k == p);
                }
                assert(!wait_ready(t, ws[i as int]));
            }
        }
        proof {
            assert forall|m: int| 0 <= m < i + 1 implies #[trigger] waiters@[m]@ == drained(t, ws[m]) by {
                if m < i {
                    assert(waiters@[m] == before[m]);
                }
            }
            assert forall|m: int| i + 1 <= m < ws.len() implies #[trigger] waiters@[m]@ == ws[m] by {
                assert(waiters@[m] == before[m]);
            }
        }
        i = i + 1;
    }
    proof {
        assert(ws.take(ws.len() as int) =~= ws);
    }
    log
}

proof fn binding_keeps_readiness(t: Seq<SourceView>, ws: Seq<WaitView>, sleeper: SleeperId, id: u64)
    ensures
        ready_in_table(bind_all(t, ws, sleeper), id) == ready_in_table(t, id),
{
    let b = bind_all(t, ws, sleeper);
    if ready_in_table(t, id) {
        let k = choose|k: int| 0 <= k < t.len() && t[k].id == id && t[k].ready;
        assert(b[k].id == id && b[k].ready);
    }
    if ready_in_table(b, id) {
        let k = choose|k: int| 0 <= k < b.len() && b[k].id == id && b[k].ready;
        assert(t[k].id == id && t[k].ready);
    }
}

proof fn binding_keeps_actions(t: Seq<SourceView>, ws: Seq<WaitView>, sleeper: SleeperId, xs: Seq<WaitView>)
    ensures
        ready_actions(bind_all(t, ws, sleeper), xs) == ready_actions(t, xs),
    decreases xs.len(),
{
    if xs.len() > 0 {
        binding_keeps_actions(t, ws, sleeper, xs.drop_last());
        binding_keeps_readiness(t, ws, sleeper, xs.last().source);
    }
}

/// Waits whose sources were triggered before a multiplexed wait binds are all
/// drained by the one pass that follows, with no second wake: binding still
/// reports some wait ready, so the caller does not block; draining the bound
/// table spends exactly the waits that were ready, runs their actions in list
/// order, and leaves every other wait armed as it was. A source that a wait
/// names and that triggers only after binding signals the binder.
pub proof fn multiplex_drains_all_ready(t: Seq<SourceView>, ws: Seq<WaitView>, sleeper: SleeperId)
    requires
        table_wf(t),
        covers(t, ws),
    ensures
        any_ready(bind_all(t, ws, sleeper), ws) == any_ready(t, ws),
        forall|i: int|
            0 <= i < ws.len() && wait_ready(t, ws[i]) ==> !(#[trigger] drained(
                bind_all(t, ws, sleeper),
                ws[i],
            )).valid(),
        forall|i: int|
            0 <= i < ws.len() && !wait_ready(t, ws[i]) ==> #[trigger] drained(
                bind_all(t, ws, sleeper),
                ws[i],
            ) == ws[i],
        ready_actions(bind_all(t, ws, sleeper), ws) == ready_actions(t, ws),
        forall|k: int|
            0 <= k < t.len() && named_by(ws, t[k].id) ==> (#[trigger] bind_all(t, ws, sleeper)[k]).waiter
                == Some(sleeper),
{
    let b = bind_all(t, ws, sleeper);
    assert forall|i: int| 0 <= i < ws.len() implies #[trigger] wait_ready(b, ws[i]) == wait_ready(t, ws[i]) by {
        binding_keeps_readiness(t, ws, sleeper, ws[i].source);
    }
    if any_ready(t, ws) {
        let i = choose|i: int| 0 <= i < ws.len() && wait_ready(t, ws[i]);
        assert(wait_ready(b, ws[i]));
    }
    if any_ready(b, ws) {
        let i = choose|i: int| 0 <= i < ws.len() && wait_ready(b, ws[i]);
        assert(wait_ready(t, ws[i]));
    }
    binding_keeps_actions(t, ws, sleeper, ws);
}

} // verus!
