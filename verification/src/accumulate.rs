//! Selection, ordering and tagging of the sweeps that form one accumulated
//! point cloud.
//!
//! Given the session metadata index (one session id and one capture
//! timestamp per sweep file row), a query row and a window size, the planner
//! picks the contributing rows, decides per sweep whether motion
//! compensation is needed, computes each sweep's time offset from the query
//! in nanoseconds, and fixes the deterministic concatenation order:
//! reverse-chronological, the query sweep first. Loading the sweep files,
//! transforming their points and concatenating the frames is the caller's
//! work; every decision is made here.

use vstd::prelude::*;

use crate::error::AccumError;

verus! {

/// One sweep that contributes to an accumulated point cloud, and what must
/// be done with it.
#[derive(Clone, Copy, Debug, PartialEq, Eq, Structural)]
pub struct SweepTask {
    /// Row of this sweep in the session metadata index.
    pub index: usize,
    /// Capture timestamp of the sweep, in nanoseconds.
    pub timestamp_ns: u64,
    /// Query timestamp minus capture timestamp, in nanoseconds. The time
    /// offset of every point of this sweep is this value scaled to seconds.
    pub delta_ns: i128,
    /// Whether the sweep's points must be motion-compensated into the query
    /// frame. False exactly for sweeps captured at the query timestamp,
    /// whose points already are in the query frame.
    pub compensate: bool,
}

/// First row of the accumulation window that ends at row `idx` (inclusive)
/// and holds at most `w` rows.
pub open spec fn window_lo(idx: int, w: int) -> int {
    if idx + 1 - w > 0 {
        idx + 1 - w
    } else {
        0
    }
}

/// The task for the sweep at row `i`, under query timestamp `query_ns`.
pub open spec fn task_for(timestamps: Seq<u64>, query_ns: u64, i: int) -> SweepTask {
    SweepTask {
        index: i as usize,
        timestamp_ns: timestamps[i],
        delta_ns: (query_ns - timestamps[i]) as i128,
        compensate: timestamps[i] != query_ns,
    }
}

/// The contributing sweeps among rows `lo <= i < end`, newest row first:
/// exactly the rows whose session id equals `log_id`, in descending row
/// order.
pub open spec fn selected(
    log_ids: Seq<Seq<char>>,
    timestamps: Seq<u64>,
    log_id: Seq<char>,
    query_ns: u64,
    lo: int,
    end: int,
) -> Seq<SweepTask>
    decreases end - lo,
{
    if end <= lo {
        Seq::empty()
    } else if log_ids[end - 1] == log_id {
        seq![task_for(timestamps, query_ns, end - 1)] + selected(
            log_ids,
            timestamps,
            log_id,
            query_ns,
            lo,
            end - 1,
        )
    } else {
        selected(log_ids, timestamps, log_id, query_ns, lo, end - 1)
    }
}

/// Builds `selected(..)` executably, newest row first.
fn select_tasks(
    log_ids: &Vec<String>,
    timestamps: &Vec<u64>,
    log_id: &String,
    query_ns: u64,
    lo: usize,
    end: usize,
) -> (r: Vec<SweepTask>)
    requires
        lo <= end <= log_ids.len(),
        log_ids.len() == timestamps.len(),
    ensures
        r@ == selected(
            log_ids.deep_view(),
            timestamps@,
            log_id@,
            query_ns,
            lo as int,
            end as int,
        ),
    decreases end,
{
    let mut r: Vec<SweepTask> = Vec::new();
    if end <= lo {
        proof {
            assert(r@ =~= selected(
                log_ids.deep_view(),
                timestamps@,
                log_id@,
                query_ns,
                lo as int,
                end as int,
            ));
        }
        return r;
    }
    let i = end - 1;
    if log_ids[i] == *log_id {
        let ts_i = timestamps[i];
        r.push(
            SweepTask {
                index: i,
                timestamp_ns: ts_i,
                delta_ns: query_ns as i128 - ts_i as i128,
                compensate: ts_i != query_ns,
            },
        );
    }
    let mut rest = select_tasks(log_ids, timestamps, log_id, query_ns, lo, i);
    r.append(&mut rest);
    proof {
        assert(r@ =~= selected(
            log_ids.deep_view(),
            timestamps@,
            log_id@,
            query_ns,
            lo as int,
            end as int,
        ));
    }
    r
}

/// Plans one accumulation at row `idx` of the session metadata index, whose
/// rows are `(log_ids[i], timestamps[i])`, for the session `log_id` at query
/// timestamp `timestamp_ns`, over a window of at most `num_accum_sweeps`
/// rows ending at `idx`.
///
/// Returns the contributing sweeps in concatenation order (descending row,
/// so the query sweep, when its row carries the query session, comes first
/// and the oldest sweep last). Rows of the window that belong to another
/// session are dropped, which may shrink the result below the window size;
/// an empty result is the error `EmptyWindow`, never a silent empty plan.
pub fn plan_sweeps(
    log_ids: &Vec<String>,
    timestamps: &Vec<u64>,
    log_id: &String,
    timestamp_ns: u64,
    idx: usize,
    num_accum_sweeps: usize,
) -> (r: Result<Vec<SweepTask>, AccumError>)
    requires
        idx < log_ids.len(),
        log_ids.len() == timestamps.len(),
    ensures
        ({
            let sel = selected(
                log_ids.deep_view(),
                timestamps@,
                log_id@,
                timestamp_ns,
                window_lo(idx as int, num_accum_sweeps as int),
                idx + 1,
            );
            match r {
                Ok(tasks) => tasks@ == sel && sel.len() > 0,
                Err(e) => e == AccumError::EmptyWindow && sel.len() == 0,
            }
        }),
{
    let lo: usize = if idx + 1 > num_accum_sweeps {
        idx + 1 - num_accum_sweeps
    } else {
        0
    };
    let tasks = select_tasks(log_ids, timestamps, log_id, timestamp_ns, lo, idx + 1);
    if tasks.len() == 0 {
        Err(AccumError::EmptyWindow)
    } else {
        Ok(tasks)
    }
}

/// Every planned sweep comes from the window, belongs to the query's
/// session, and carries exactly the task of its row: its own capture
/// timestamp, the time offset `query_ns - timestamp_ns`, and a compensation
/// mark exactly when its capture timestamp differs from the query's.
pub proof fn lemma_selected_elems(
    log_ids: Seq<Seq<char>>,
    timestamps: Seq<u64>,
    log_id: Seq<char>,
    query_ns: u64,
    lo: int,
    end: int,
)
    requires
        0 <= lo,
        end <= timestamps.len(),
        end <= usize::MAX,
        log_ids.len() == timestamps.len(),
    ensures
        forall|k: int|
            0 <= k < selected(log_ids, timestamps, log_id, query_ns, lo, end).len() ==> {
                let t = #[trigger] selected(log_ids, timestamps, log_id, query_ns, lo, end)[k];
                &&& lo <= t.index < end
                &&& log_ids[t.index as int] == log_id
                &&& t == task_for(timestamps, query_ns, t.index as int)
            },
    decreases end - lo,
{
    if end > lo {
        lemma_selected_elems(log_ids, timestamps, log_id, query_ns, lo, end - 1);
        let sel = selected(log_ids, timestamps, log_id, query_ns, lo, end);
        let sub = selected(log_ids, timestamps, log_id, query_ns, lo, end - 1);
        assert forall|k: int| 0 <= k < sel.len() implies {
            let t = #[trigger] sel[k];
            &&& lo <= t.index < end
            &&& log_ids[t.index as int] == log_id
            &&& t == task_for(timestamps, query_ns, t.index as int)
        } by {
            if log_ids[end - 1] == log_id {
                if k == 0 {
                    assert(sel[0] == task_for(timestamps, query_ns, end - 1));
                } else {
                    assert(sel[k] == sub[k - 1]);
                }
            } else {
                assert(sel[k] == sub[k]);
            }
        }
    }
}

/// A sweep captured at the query timestamp is never motion-compensated and
/// its time offset is exactly zero.
pub proof fn lemma_query_time_sweep_untouched(
    log_ids: Seq<Seq<char>>,
    timestamps: Seq<u64>,
    log_id: Seq<char>,
    query_ns: u64,
    lo: int,
    end: int,
    k: int,
)
    requires
        0 <= lo,
        end <= timestamps.len(),
        end <= usize::MAX,
        log_ids.len() == timestamps.len(),
        0 <= k < selected(log_ids, timestamps, log_id, query_ns, lo, end).len(),
        selected(log_ids, timestamps, log_id, query_ns, lo, end)[k].timestamp_ns == query_ns,
    ensures
        !selected(log_ids, timestamps, log_id, query_ns, lo, end)[k].compensate,
        selected(log_ids, timestamps, log_id, query_ns, lo, end)[k].delta_ns == 0,
{
    lemma_selected_elems(log_ids, timestamps, log_id, query_ns, lo, end);
}

/// Completeness of the selection: every window row that belongs to the
/// query's session appears in the plan.
pub proof fn lemma_selected_complete(
    log_ids: Seq<Seq<char>>,
    timestamps: Seq<u64>,
    log_id: Seq<char>,
    query_ns: u64,
    lo: int,
    end: int,
    i: int,
)
    requires
        0 <= lo,
        end <= timestamps.len(),
        log_ids.len() == timestamps.len(),
        lo <= i < end,
        log_ids[i] == log_id,
    ensures
        selected(log_ids, timestamps, log_id, query_ns, lo, end).contains(
            task_for(timestamps, query_ns, i),
        ),
    decreases end - lo,
{
    let sel = selected(log_ids, timestamps, log_id, query_ns, lo, end);
    if i == end - 1 {
        assert(sel[0] == task_for(timestamps, query_ns, i));
    } else {
        lemma_selected_complete(log_ids, timestamps, log_id, query_ns, lo, end - 1, i);
        let sub = selected(log_ids, timestamps, log_id, query_ns, lo, end - 1);
        let k = choose|k: int| 0 <= k < sub.len() && sub[k] == task_for(timestamps, query_ns, i);
        if log_ids[end - 1] == log_id {
            assert(sel[k + 1] == task_for(timestamps, query_ns, i));
        } else {
            assert(sel[k] == task_for(timestamps, query_ns, i));
        }
    }
}

/// A row contributes to the plan exactly when it lies in the window and its
/// session id is the query's: truncation by a session boundary drops those
/// rows and nothing else.
pub proof fn lemma_selected_membership(
    log_ids: Seq<Seq<char>>,
    timestamps: Seq<u64>,
    log_id: Seq<char>,
    query_ns: u64,
    lo: int,
    end: int,
    i: int,
)
    requires
        0 <= lo,
        end <= timestamps.len(),
        end <= usize::MAX,
        log_ids.len() == timestamps.len(),
    ensures
        (exists|k: int|
            0 <= k < selected(log_ids, timestamps, log_id, query_ns, lo, end).len()
                && selected(log_ids, timestamps, log_id, query_ns, lo, end)[k].index == i) <==> (lo
            <= i < end && log_ids[i] == log_id),
{
    let sel = selected(log_ids, timestamps, log_id, query_ns, lo, end);
    lemma_selected_elems(log_ids, timestamps, log_id, query_ns, lo, end);
    if lo <= i < end && log_ids[i] == log_id {
        lemma_selected_complete(log_ids, timestamps, log_id, query_ns, lo, end, i);
        let k = choose|k: int| 0 <= k < sel.len() && sel[k] == task_for(timestamps, query_ns, i);
        assert(sel[k].index == i);
    }
}

/// The concatenation order is deterministic and reverse-chronological in
/// row order: a sweep of a higher (more recent) row always precedes a sweep
/// of a lower row.
pub proof fn lemma_selected_descending(
    log_ids: Seq<Seq<char>>,
    timestamps: Seq<u64>,
    log_id: Seq<char>,
    query_ns: u64,
    lo: int,
    end: int,
)
    requires
        0 <= lo,
        end <= timestamps.len(),
        end <= usize::MAX,
        log_ids.len() == timestamps.len(),
    ensures
        forall|k1: int, k2: int|
            0 <= k1 < k2 < selected(log_ids, timestamps, log_id, query_ns, lo, end).len()
                ==> #[trigger] selected(log_ids, timestamps, log_id, query_ns, lo, end)[k1].index
                > #[trigger] selected(log_ids, timestamps, log_id, query_ns, lo, end)[k2].index,
    decreases end - lo,
{
    if end > lo {
        lemma_selected_descending(log_ids, timestamps, log_id, query_ns, lo, end - 1);
        lemma_selected_elems(log_ids, timestamps, log_id, query_ns, lo, end - 1);
        let sel = selected(log_ids, timestamps, log_id, query_ns, lo, end);
        let sub = selected(log_ids, timestamps, log_id, query_ns, lo, end - 1);
        assert forall|k1: int, k2: int|
            0 <= k1 < k2 < sel.len() implies sel[k1].index > sel[k2].index by {
            if log_ids[end - 1] == log_id {
                assert(sel[k2] == sub[k2 - 1]);
                if k1 == 0 {
                    assert(sel[0] == task_for(timestamps, query_ns, end - 1));
                } else {
                    assert(sel[k1] == sub[k1 - 1]);
                }
            } else {
                assert(sel[k1] == sub[k1]);
                assert(sel[k2] == sub[k2]);
            }
        }
    }
}

/// The contributing sweeps in ascending row order, oldest first: each
/// window row of the query's session is appended as it is passed, as a
/// collection in row order would build it.
pub open spec fn ascending_selection(
    log_ids: Seq<Seq<char>>,
    timestamps: Seq<u64>,
    log_id: Seq<char>,
    query_ns: u64,
    lo: int,
    end: int,
) -> Seq<SweepTask>
    decreases end - lo,
{
    if end <= lo {
        Seq::empty()
    } else if log_ids[end - 1] == log_id {
        ascending_selection(log_ids, timestamps, log_id, query_ns, lo, end - 1).push(
            task_for(timestamps, query_ns, end - 1),
        )
    } else {
        ascending_selection(log_ids, timestamps, log_id, query_ns, lo, end - 1)
    }
}

/// The concatenation order is the reversal of the ascending, oldest-first
/// collection order: collecting the window's matching rows from oldest to
/// newest and then reversing the sequence yields exactly the plan.
pub proof fn lemma_selected_is_reversed_ascending(
    log_ids: Seq<Seq<char>>,
    timestamps: Seq<u64>,
    log_id: Seq<char>,
    query_ns: u64,
    lo: int,
    end: int,
)
    requires
        0 <= lo,
    ensures
        selected(log_ids, timestamps, log_id, query_ns, lo, end) == ascending_selection(
            log_ids,
            timestamps,
            log_id,
            query_ns,
            lo,
            end,
        ).reverse(),
    decreases end - lo,
{
    let sel = selected(log_ids, timestamps, log_id, query_ns, lo, end);
    let asc = ascending_selection(log_ids, timestamps, log_id, query_ns, lo, end);
    if end <= lo {
        assert(sel =~= asc.reverse());
    } else {
        lemma_selected_is_reversed_ascending(log_ids, timestamps, log_id, query_ns, lo, end - 1);
        let sub_asc = ascending_selection(log_ids, timestamps, log_id, query_ns, lo, end - 1);
        if log_ids[end - 1] == log_id {
            let t = task_for(timestamps, query_ns, end - 1);
            assert(sub_asc.push(t).reverse() =~= seq![t] + sub_asc.reverse());
        }
        assert(sel =~= asc.reverse());
    }
}

/// The query sweep can never be excluded: when row `idx`, the query's own
/// row, carries the query's session id, the plan over the window ending at
/// `idx` is non-empty and the query sweep is its first element. Together
/// with the contract of `plan_sweeps` (an empty selection is the error
/// `EmptyWindow`), an accumulation that includes the query's own row only
/// fails when that row names another session.
pub proof fn lemma_query_sweep_first(
    log_ids: Seq<Seq<char>>,
    timestamps: Seq<u64>,
    log_id: Seq<char>,
    query_ns: u64,
    lo: int,
    idx: int,
)
    requires
        0 <= lo <= idx < timestamps.len(),
        log_ids.len() == timestamps.len(),
        log_ids[idx] == log_id,
    ensures
        selected(log_ids, timestamps, log_id, query_ns, lo, idx + 1).len() > 0,
        selected(log_ids, timestamps, log_id, query_ns, lo, idx + 1)[0] == task_for(
            timestamps,
            query_ns,
            idx,
        ),
{
}

} // verus!
