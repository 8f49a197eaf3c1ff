//! What holds of every run, proved from the protocol's definition.

use crate::batch::{batch_of, lemma_batches_partition, BATCH_SIZE};
use crate::decimal::decimal_u64;
use crate::sync::{
    backoff_secs, delay_secs, is_applied, lemma_doubled_grows, lemma_step_keeps_wf, Action, Cause,
    EventView, Phase, ResponseView, RunView, Step, SyncError, STATUS_OK,
    STATUS_PRECONDITION_FAILED, STATUS_TOO_MANY_REQUESTS,
};
use vstd::prelude::*;

verus! {

/// A run stays well formed whatever is reported to it, and keeps its batches
/// and its policy.
pub proof fn lemma_run_keeps_wf(run: RunView, events: Seq<EventView>)
    requires
        run.wf(),
    ensures
        run.after(events).wf(),
        run.after(events).batches == run.batches,
        run.after(events).policy == run.policy,
    decreases events.len(),
{
    if events.len() > 0 {
        lemma_run_keeps_wf(run, events.drop_last());
        lemma_step_keeps_wf(run.after(events.drop_last()), events.last());
    }
}

/// A batch that is due for submission is one of the batches of the run. It
/// holds at least one record and at most `BATCH_SIZE`, and they are the
/// records of the run at the positions of that batch, in their order.
pub proof fn lemma_submission_is_a_batch(run: RunView)
    requires
        run.wf(),
        run.pending() is Submit,
    ensures
        run.pending()->batch == run.index,
        run.index < run.batches.len(),
        run.batches[run.index as int] == batch_of(run.records(), run.index as int),
        0 < run.batches[run.index as int].len() <= BATCH_SIZE,
{
    lemma_batches_partition(run.records());
}

/// Whether `event` is an answer that says a submission was applied and whose
/// pause, if it asks for one, is a number.
pub open spec fn is_applied_answer(event: EventView) -> bool {
    match event {
        EventView::Response(response) => is_applied(response.status) && delay_secs(
            response.backoff,
            0,
        ) is Some,
        _ => false,
    }
}

/// Batches are neither skipped nor repeated: a step leaves the run at the
/// batch it was working on, or moves it to the next one, and it moves
/// exactly when a submission is answered as applied.
pub proof fn lemma_batches_in_order(run: RunView, event: EventView)
    requires
        run.wf(),
    ensures
        run.step(event).0.index == run.index || run.step(event).0.index == run.index + 1,
        run.step(event).0.index == run.index + 1 <==> run.phase is Submit && is_applied_answer(
            event,
        ),
{
}

/// After a conflict the run fetches the version again at once, and the
/// same batch is then submitted with the version that this fetch brought,
/// whatever the stale one was.
pub proof fn lemma_conflict_refetches(
    run: RunView,
    conflict: ResponseView,
    fetched: ResponseView,
    fresh: u64,
)
    requires
        run.wf(),
        run.phase is Submit,
        conflict.status == STATUS_PRECONDITION_FAILED,
        fetched.status == STATUS_OK,
        delay_secs(fetched.backoff, 0) is Some,
        fetched.version matches Some(bytes) && decimal_u64(bytes) == Some(fresh),
    ensures
        run.step(EventView::Response(conflict)).1 == (Action {
            wait_secs: 0,
            step: Step::FetchVersion,
        }),
        run.step(EventView::Response(conflict)).0.step(EventView::Response(fetched)).1.step == (
        Step::Submit { version: fresh, batch: run.index }),
        run.step(EventView::Response(conflict)).0.step(EventView::Response(fetched)).0.batches
            == run.batches,
{
}

/// A rate-limited answer changes nothing in the run. What was due is due
/// again, after the seconds that the answer names, or after the floor of the
/// policy where it names none; and then never at once.
pub proof fn lemma_rate_limit_waits(run: RunView, response: ResponseView)
    requires
        run.wf(),
        !(run.phase is Done),
        response.status == STATUS_TOO_MANY_REQUESTS,
        delay_secs(response.retry_after, run.policy.min_backoff_secs) is Some,
    ensures
        run.step(EventView::Response(response)).0 == run,
        run.step(EventView::Response(response)).1.step == run.pending(),
        run.step(EventView::Response(response)).1.wait_secs == (match response.retry_after {
            Some(bytes) => decimal_u64(bytes)->0,
            None => run.policy.min_backoff_secs,
        }),
        response.retry_after is None ==> run.step(EventView::Response(response)).1.wait_secs > 0,
{
}

/// Whether `event` is an answer with a status that a version fetch does not
/// know: neither success nor a rate limit.
pub open spec fn is_unknown_to_fetch(event: EventView) -> bool {
    match event {
        EventView::Response(response) => response.status != STATUS_OK && response.status
            != STATUS_TOO_MANY_REQUESTS,
        _ => false,
    }
}

/// After an answer with an unknown status a version fetch is repeated only
/// after a wait: the floor of the policy, doubled for each repeat that went
/// before, and so never at once. Once the policy allows no further repeat,
/// the run ends instead.
pub proof fn lemma_unknown_status_backs_off(run: RunView, retries: u64, event: EventView)
    requires
        run.wf(),
        run.phase == (Phase::Fetch { retries }),
        is_unknown_to_fetch(event),
    ensures
        retries < run.policy.max_retries ==> run.step(event) == (
            RunView { phase: Phase::Fetch { retries: (retries + 1) as u64 }, ..run },
            Action {
                wait_secs: backoff_secs(run.policy.min_backoff_secs, retries),
                step: Step::FetchVersion,
            },
        ),
        backoff_secs(run.policy.min_backoff_secs, retries) >= run.policy.min_backoff_secs > 0,
        retries >= run.policy.max_retries ==> run.step(event) == run.fail(
            0,
            Cause::RetriesExhausted,
        ),
{
    lemma_doubled_grows(run.policy.min_backoff_secs as nat, 0, retries as nat);
}

/// While the policy allows repeats, `n` answers with unknown statuses to a
/// version fetch leave the run in that fetch, `n` repeats further on.
proof fn lemma_unknown_answers_count(run: RunView, retries: u64, events: Seq<EventView>, n: int)
    requires
        run.wf(),
        run.phase == (Phase::Fetch { retries }),
        forall|i: int| 0 <= i < events.len() ==> is_unknown_to_fetch(#[trigger] events[i]),
        0 <= n <= events.len(),
        retries + n <= run.policy.max_retries,
    ensures
        run.after(events.subrange(0, n)) == (RunView {
            phase: Phase::Fetch { retries: (retries + n) as u64 },
            ..run
        }),
    decreases n,
{
    if n == 0 {
        assert(events.subrange(0, 0) =~= Seq::<EventView>::empty());
    } else {
        lemma_unknown_answers_count(run, retries, events, n - 1);
        lemma_after_one_more(run, events, n - 1);
        assert(is_unknown_to_fetch(events[n - 1]));
    }
}

/// A version fetch that is answered with unknown statuses without end does
/// not go on for ever: each answer but the last is followed by a repeat of
/// the fetch after a wait of at least the floor, and the answer after the
/// last repeat that the policy allows ends the run.
pub proof fn lemma_unknown_answers_exhaust_retries(
    run: RunView,
    retries: u64,
    events: Seq<EventView>,
)
    requires
        run.wf(),
        run.phase == (Phase::Fetch { retries }),
        retries <= run.policy.max_retries,
        events.len() == run.policy.max_retries - retries + 1,
        forall|i: int| 0 <= i < events.len() ==> is_unknown_to_fetch(#[trigger] events[i]),
    ensures
        run.after(events).phase == Phase::Done(
            Err(SyncError { batch: run.index, cause: Cause::RetriesExhausted }),
        ),
        forall|i: int|
            0 <= i < events.len() - 1 ==> (#[trigger] run.answers(events)[i]).step
                == Step::FetchVersion && run.answers(events)[i].wait_secs
                >= run.policy.min_backoff_secs > 0,
{
    let last = events.len() - 1;
    lemma_unknown_answers_count(run, retries, events, last);
    lemma_after_one_more(run, events, last);
    assert(events.subrange(0, last + 1) =~= events);
    assert(is_unknown_to_fetch(events[last]));
    assert forall|i: int| 0 <= i < events.len() - 1 implies (#[trigger] run.answers(
        events,
    )[i]).step == Step::FetchVersion && run.answers(events)[i].wait_secs
        >= run.policy.min_backoff_secs > 0 by {
        lemma_unknown_answers_count(run, retries, events, i);
        assert(is_unknown_to_fetch(events[i]));
        lemma_unknown_status_backs_off(
            run.after(events.subrange(0, i)),
            (retries + i) as u64,
            events[i],
        );
    }
}

/// Whether `status` is the success that the phase of `run` waits for.
pub open spec fn is_success(run: RunView, status: u16) -> bool {
    match run.phase {
        Phase::Fetch { .. } => status == STATUS_OK,
        Phase::Submit { .. } => is_applied(status),
        Phase::Done(_) => false,
    }
}

/// A pause that a successful answer asks for delays what follows by that
/// many seconds and changes nothing else: the state and the next step are
/// those of the same answer without the pause, which follow at once.
pub proof fn lemma_pacing_only_delays(run: RunView, response: ResponseView, secs: u64)
    requires
        is_success(run, response.status),
        response.backoff matches Some(bytes) && decimal_u64(bytes) == Some(secs),
    ensures
        ({
            let unpaced = ResponseView { backoff: None, ..response };
            let paced_step = run.step(EventView::Response(response));
            let plain_step = run.step(EventView::Response(unpaced));
            &&& paced_step.0 == plain_step.0
            &&& paced_step.1.step == plain_step.1.step
            &&& paced_step.1.wait_secs == secs
            &&& plain_step.1.wait_secs == 0
        }),
{
}

/// Whether `event` is a successful answer to a version fetch that names
/// `version` and whose pause, if it asks for one, is a number.
pub open spec fn is_version_answer(event: EventView, version: u64) -> bool {
    match event {
        EventView::Response(response) => {
            &&& response.status == STATUS_OK
            &&& delay_secs(response.backoff, 0) is Some
            &&& match response.version {
                Some(bytes) => decimal_u64(bytes) == Some(version),
                None => false,
            }
        },
        _ => false,
    }
}

/// Whether `events` are the answers of a service that never objects: to
/// each fetch the next of `versions`, and to each submission that it was
/// applied.
pub open spec fn is_smooth(events: Seq<EventView>, versions: Seq<u64>) -> bool {
    &&& events.len() == 2 * versions.len()
    &&& forall|k: int|
        0 <= k < versions.len() ==> is_version_answer(#[trigger] events[2 * k], versions[k])
    &&& forall|k: int| 0 <= k < versions.len() ==> is_applied_answer(#[trigger] events[2 * k + 1])
}

/// The state after one more event is the step from the state before it.
pub proof fn lemma_after_one_more(run: RunView, events: Seq<EventView>, n: int)
    requires
        0 <= n < events.len(),
    ensures
        run.after(events.subrange(0, n + 1)) == run.after(events.subrange(0, n)).step(
            events[n],
        ).0,
{
    assert(events.subrange(0, n + 1).drop_last() =~= events.subrange(0, n));
}

/// Against a service that never objects a run goes through its batches
/// from the first to the last. Each batch is submitted once, after a fetch
/// of its own and under the version that this fetch brought, and after the
/// last one the run ends with success.
pub proof fn lemma_smooth_run_applies_all(
    run: RunView,
    events: Seq<EventView>,
    versions: Seq<u64>,
    k: int,
)
    requires
        run.wf(),
        run.index == 0,
        run.phase == (Phase::Fetch { retries: 0 }),
        versions.len() == run.batches.len(),
        is_smooth(events, versions),
        0 <= k < versions.len(),
    ensures
        run.after(events.subrange(0, 2 * k)) == (RunView {
            index: k as usize,
            phase: Phase::Fetch { retries: 0 },
            ..run
        }),
        run.answers(events)[2 * k].step == (Step::Submit {
            version: versions[k],
            batch: k as usize,
        }),
        run.answers(events)[2 * k + 1].step == (if k + 1 < versions.len() {
            Step::FetchVersion
        } else {
            Step::Finish(Ok(()))
        }),
        k + 1 == versions.len() ==> run.after(events) == (RunView {
            index: versions.len() as usize,
            phase: Phase::Done(Ok(())),
            ..run
        }),
    decreases k,
{
    if k == 0 {
        assert(events.subrange(0, 0) =~= Seq::<EventView>::empty());
    } else {
        lemma_smooth_run_applies_all(run, events, versions, k - 1);
        lemma_after_one_more(run, events, 2 * (k - 1));
        lemma_after_one_more(run, events, 2 * (k - 1) + 1);
        assert(is_version_answer(events[2 * (k - 1)], versions[k - 1]));
        assert(is_applied_answer(events[2 * (k - 1) + 1]));
    }
    lemma_after_one_more(run, events, 2 * k);
    assert(is_version_answer(events[2 * k], versions[k]));
    assert(is_applied_answer(events[2 * k + 1]));
    if k + 1 == versions.len() {
        lemma_after_one_more(run, events, 2 * k + 1);
        assert(events.subrange(0, 2 * k + 2) =~= events);
    }
}

/// A run that has ended stays as it is: whatever is reported to it, its
/// state does not change, and every answer is to stop with the result it
/// ended with, so no request is due ever again.
pub proof fn lemma_ended_run_stays(run: RunView, events: Seq<EventView>)
    requires
        run.phase is Done,
    ensures
        run.after(events) == run,
        forall|i: int|
            0 <= i < events.len() ==> #[trigger] run.answers(events)[i] == (Action {
                wait_secs: 0,
                step: Step::Finish(run.phase->Done_0),
            }),
    decreases events.len(),
{
    if events.len() > 0 {
        lemma_ended_run_stays(run, events.drop_last());
    }
    assert forall|i: int| 0 <= i < events.len() implies #[trigger] run.answers(events)[i] == (
    Action { wait_secs: 0, step: Step::Finish(run.phase->Done_0) }) by {
        lemma_ended_run_stays(run, events.subrange(0, i));
    }
}

/// A submission that is answered with a status that is neither success, nor
/// a rate limit, nor a conflict ends the run at once with an error that
/// names the batch and the status. The batches before it stay counted as
/// applied, and whatever is reported afterwards, no further step but to stop
/// is ever due.
pub proof fn lemma_fatal_status_ends_run(
    run: RunView,
    response: ResponseView,
    later: Seq<EventView>,
)
    requires
        run.wf(),
        run.phase is Submit,
        !is_applied(response.status),
        response.status != STATUS_TOO_MANY_REQUESTS,
        response.status != STATUS_PRECONDITION_FAILED,
    ensures
        ({
            let failure = Err::<(), SyncError>(
                SyncError { batch: run.index, cause: Cause::Status(response.status) },
            );
            let ended = run.step(EventView::Response(response));
            &&& ended.0 == (RunView { phase: Phase::Done(failure), ..run })
            &&& ended.1 == (Action { wait_secs: 0, step: Step::Finish(failure) })
            &&& ended.0.after(later) == ended.0
            &&& forall|i: int|
                0 <= i < later.len() ==> (#[trigger] ended.0.answers(later)[i]).step
                    == Step::Finish(failure)
        }),
{
    lemma_ended_run_stays(run.step(EventView::Response(response)).0, later);
}

} // verus!
