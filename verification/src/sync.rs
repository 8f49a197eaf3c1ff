//! The synchronisation protocol as a state machine.
//!
//! A [`PatchRun`] holds the batches of one run and knows which request is
//! due. It sends nothing itself. A driver asks [`PatchRun::pending`] what to
//! do, does it, and reports what came back to [`PatchRun::step`], which
//! answers with how long to wait and what to do next. Batches are submitted
//! one at a time and in order; each submission is stamped with a library
//! version that was fetched for it, and fetched again after every conflict.

use crate::batch::{batches, contents, split_batches};
use crate::decimal::decimal_u64;
use crate::zotero::{header_bytes, HeaderValueExt};
use crate::PatchData;
use reqwest::header::HeaderValue;
use vstd::prelude::*;

verus! {

/// The status of a request that was carried out.
pub const STATUS_OK: u16 = 200;

/// The status of a request that was carried out and answers with no body.
pub const STATUS_NO_CONTENT: u16 = 204;

/// The status of a submission whose version stamp is stale.
pub const STATUS_PRECONDITION_FAILED: u16 = 412;

/// The status of a request that came too soon.
pub const STATUS_TOO_MANY_REQUESTS: u16 = 429;

/// How a run treats answers that tell it to try again. Every policy has a
/// floor of at least one second: no retry follows at once unless the service
/// itself names a wait of zero seconds.
#[derive(Clone, Copy, Debug, PartialEq, Eq)]
pub struct RetryPolicy {
    min_backoff_secs: u64,
    max_retries: u64,
}

/// What a [`RetryPolicy`] holds.
pub struct PolicyView {
    /// The seconds to wait before a retry for which the service names no
    /// delay; doubled with each repeat of a version fetch after an answer
    /// with an unknown status.
    pub min_backoff_secs: u64,
    /// How often one version fetch is repeated after answers with a status
    /// that the protocol does not know.
    pub max_retries: u64,
}

impl View for RetryPolicy {
    type V = PolicyView;

    closed spec fn view(&self) -> PolicyView {
        PolicyView { min_backoff_secs: self.min_backoff_secs, max_retries: self.max_retries }
    }
}

impl RetryPolicy {
    #[verifier::type_invariant]
    spec fn has_floor(self) -> bool {
        self.min_backoff_secs > 0
    }

    /// The policy with the floor `min_backoff_secs` and the bound
    /// `max_retries`, or `None` where the floor is zero.
    pub fn new(min_backoff_secs: u64, max_retries: u64) -> (policy: Option<RetryPolicy>)
        ensures
            policy is Some <==> min_backoff_secs > 0,
            policy matches Some(made) ==> made@ == (PolicyView { min_backoff_secs, max_retries }),
    {
        if min_backoff_secs > 0 {
            Some(RetryPolicy { min_backoff_secs, max_retries })
        } else {
            None
        }
    }

    /// The floor: the seconds to wait before a retry for which the service
    /// names no delay.
    pub fn min_backoff_secs(&self) -> (secs: u64)
        ensures
            secs == self@.min_backoff_secs,
            secs > 0,
    {
        proof {
            use_type_invariant(self);
        }
        self.min_backoff_secs
    }

    /// The bound: how often one version fetch is repeated after answers
    /// with an unknown status.
    pub fn max_retries(&self) -> (count: u64)
        ensures
            count == self@.max_retries,
    {
        self.max_retries
    }

    /// The seconds to wait before a version fetch is repeated after an
    /// answer with an unknown status, `retries` repeats into the fetch.
    pub fn backoff(&self, retries: u64) -> (secs: u64)
        ensures
            secs == backoff_secs(self@.min_backoff_secs, retries),
            secs >= self@.min_backoff_secs > 0,
    {
        proof {
            use_type_invariant(self);
        }
        let floor = self.min_backoff_secs;
        let mut secs = floor;
        let mut done: u64 = 0;
        while done < retries && secs < u64::MAX
            invariant
                done <= retries,
                secs == backoff_secs(floor, done),
            decreases retries - done,
        {
            secs = if secs > u64::MAX / 2 {
                u64::MAX
            } else {
                secs * 2
            };
            done += 1;
        }
        proof {
            lemma_doubled_grows(floor as nat, 0, retries as nat);
            lemma_doubled_grows(floor as nat, done as nat, retries as nat);
        }
        secs
    }
}

/// Why a run stopped before its last batch was applied.
#[derive(Clone, Copy, Debug, PartialEq, Eq)]
pub enum Cause {
    /// A submission was answered with this status, which is neither success,
    /// nor a rate limit, nor a conflict.
    Status(u16),
    /// A header that should write a number of seconds or a version does not
    /// write a number.
    MalformedValue,
    /// A successful version fetch carried no version.
    MissingVersion,
    /// A version fetch was answered with unknown statuses more often than
    /// the policy allows.
    RetriesExhausted,
    /// A request could not be delivered or its answer could not be read.
    Transport,
    /// The driver called the run off.
    Cancelled,
}

/// A run that stopped early: the batch it was working on, counted from zero,
/// and the reason. The batches before that one stay applied.
#[derive(Clone, Copy, Debug, PartialEq, Eq)]
pub struct SyncError {
    pub batch: usize,
    pub cause: Cause,
}

/// What the driver is to do.
#[derive(Clone, Copy, Debug, PartialEq, Eq)]
pub enum Step {
    /// Read the current version of the library.
    FetchVersion,
    /// Submit batch `batch`, to be applied only if the library is still at
    /// `version`.
    Submit { version: u64, batch: usize },
    /// Stop: the run has ended with this result.
    Finish(Result<(), SyncError>),
}

/// The answer of a run to an event: wait `wait_secs` seconds, then do `step`.
#[derive(Clone, Copy, Debug, PartialEq, Eq)]
pub struct Action {
    pub wait_secs: u64,
    pub step: Step,
}

/// Where a run stands.
#[derive(Clone, Copy, Debug, PartialEq, Eq)]
pub enum Phase {
    /// A version fetch is due or under way; `retries` repeats of it followed
    /// answers with an unknown status.
    Fetch { retries: u64 },
    /// A submission stamped with `version` is due or under way.
    Submit { version: u64 },
    /// The run has ended.
    Done(Result<(), SyncError>),
}

/// What the service answered: the status, and the values of the three
/// headers that the protocol reads, where the answer carries them.
#[derive(Debug)]
pub struct Response {
    pub status: u16,
    /// `Backoff`: seconds to pause after a success.
    pub backoff: Option<HeaderValue>,
    /// `Retry-After`: seconds to wait after a rate limit.
    pub retry_after: Option<HeaderValue>,
    /// `Last-Modified-Version`: the version of the library.
    pub version: Option<HeaderValue>,
}

/// What the driver reports back.
#[derive(Debug)]
pub enum Event {
    /// The service answered the request.
    Response(Response),
    /// The request failed below the protocol.
    TransportFailure,
    /// The run is to be called off.
    Cancelled,
}

/// A [`Response`] with each header value as its bytes.
pub struct ResponseView {
    pub status: u16,
    pub backoff: Option<Seq<u8>>,
    pub retry_after: Option<Seq<u8>>,
    pub version: Option<Seq<u8>>,
}

/// An [`Event`] with each header value as its bytes.
pub enum EventView {
    Response(ResponseView),
    TransportFailure,
    Cancelled,
}

/// The bytes of a header value that may be absent.
pub open spec fn header_view(header: Option<HeaderValue>) -> Option<Seq<u8>> {
    match header {
        Some(value) => Some(header_bytes(value)),
        None => None,
    }
}

impl View for Response {
    type V = ResponseView;

    open spec fn view(&self) -> ResponseView {
        ResponseView {
            status: self.status,
            backoff: header_view(self.backoff),
            retry_after: header_view(self.retry_after),
            version: header_view(self.version),
        }
    }
}

impl View for Event {
    type V = EventView;

    open spec fn view(&self) -> EventView {
        match *self {
            Event::Response(response) => EventView::Response(response@),
            Event::TransportFailure => EventView::TransportFailure,
            Event::Cancelled => EventView::Cancelled,
        }
    }
}

/// Each of `events` with its header values as their bytes.
pub open spec fn event_views(events: Seq<Event>) -> Seq<EventView> {
    Seq::new(events.len(), |i: int| events[i]@)
}

/// The seconds that a header asks for: `absent` where the answer carries no
/// such header, the number that it writes where it writes one, and `None`
/// where it writes none.
pub open spec fn delay_secs(header: Option<Seq<u8>>, absent: u64) -> Option<u64> {
    match header {
        Some(bytes) => decimal_u64(bytes),
        None => Some(absent),
    }
}

/// `secs` doubled `times` times.
pub open spec fn doubled(secs: nat, times: nat) -> nat
    decreases times,
{
    if times == 0 {
        secs
    } else {
        2 * doubled(secs, (times - 1) as nat)
    }
}

/// The seconds to wait before a version fetch is repeated after an answer
/// with an unknown status, `retries` repeats into the fetch: the floor for
/// the first repeat and twice the wait before for each further one, but
/// never more than 64 bits hold.
pub open spec fn backoff_secs(floor: u64, retries: u64) -> u64 {
    if doubled(floor as nat, retries as nat) <= u64::MAX {
        doubled(floor as nat, retries as nat) as u64
    } else {
        u64::MAX
    }
}

/// Doubling more often gives no less.
pub proof fn lemma_doubled_grows(secs: nat, fewer: nat, more: nat)
    requires
        fewer <= more,
    ensures
        doubled(secs, fewer) <= doubled(secs, more),
    decreases more,
{
    if more > 0 {
        if fewer < more {
            lemma_doubled_grows(secs, fewer, (more - 1) as nat);
        } else {
            lemma_doubled_grows(secs, (fewer - 1) as nat, (more - 1) as nat);
        }
    }
}

/// Whether `status` says that a submission was applied.
pub open spec fn is_applied(status: u16) -> bool {
    status == STATUS_OK || status == STATUS_NO_CONTENT
}

/// The state of a run: its batches, its policy, the batch it is working on
/// and its phase.
pub struct RunView {
    pub batches: Seq<Seq<PatchData>>,
    pub policy: PolicyView,
    pub index: usize,
    pub phase: Phase,
}

impl RunView {
    /// The batches are those of the records of the run, the floor of the
    /// policy is at least one second, and the run works on one of its
    /// batches until it has ended; after a success all are applied.
    pub open spec fn wf(self) -> bool {
        &&& self.batches == batches(self.records())
        &&& self.policy.min_backoff_secs > 0
        &&& self.batches.len() <= usize::MAX
        &&& match self.phase {
            Phase::Done(Ok(())) => self.index == self.batches.len(),
            Phase::Done(Err(error)) => error.batch == self.index && self.index
                < self.batches.len(),
            _ => self.index < self.batches.len(),
        }
    }

    /// The records of the run, in order.
    pub open spec fn records(self) -> Seq<PatchData> {
        self.batches.flatten()
    }

    /// What is due in this state.
    pub open spec fn pending(self) -> Step {
        match self.phase {
            Phase::Fetch { .. } => Step::FetchVersion,
            Phase::Submit { version } => Step::Submit { version, batch: self.index },
            Phase::Done(outcome) => Step::Finish(outcome),
        }
    }

    /// Going on in `phase` after `wait_secs` seconds.
    pub open spec fn go(self, phase: Phase, wait_secs: u64) -> (RunView, Action) {
        let next = RunView { phase, ..self };
        (next, Action { wait_secs, step: next.pending() })
    }

    /// Stopping at the current batch for `cause`.
    pub open spec fn fail(self, wait_secs: u64, cause: Cause) -> (RunView, Action) {
        self.go(Phase::Done(Err(SyncError { batch: self.index, cause })), wait_secs)
    }

    /// Going on after the current batch was applied: to the fetch for the
    /// next batch, or to the end after the last.
    pub open spec fn advance(self, wait_secs: u64) -> (RunView, Action) {
        let next = RunView { index: (self.index + 1) as usize, ..self };
        if self.index + 1 < self.batches.len() {
            next.go(Phase::Fetch { retries: 0 }, wait_secs)
        } else {
            next.go(Phase::Done(Ok(())), wait_secs)
        }
    }

    /// Repeating what is due, after the wait that a rate-limited answer asks
    /// for: the seconds that it names, or the floor of the policy where it
    /// names none.
    pub open spec fn retry_later(self, response: ResponseView) -> (RunView, Action) {
        match delay_secs(response.retry_after, self.policy.min_backoff_secs) {
            Some(wait_secs) => self.go(self.phase, wait_secs),
            None => self.fail(0, Cause::MalformedValue),
        }
    }

    /// The answer to a version fetch, `retries` repeats into it.
    pub open spec fn on_fetch_response(self, retries: u64, response: ResponseView) -> (
        RunView,
        Action,
    ) {
        if response.status == STATUS_OK {
            match delay_secs(response.backoff, 0) {
                Some(wait_secs) => match response.version {
                    Some(bytes) => match decimal_u64(bytes) {
                        Some(version) => self.go(Phase::Submit { version }, wait_secs),
                        None => self.fail(wait_secs, Cause::MalformedValue),
                    },
                    None => self.fail(wait_secs, Cause::MissingVersion),
                },
                None => self.fail(0, Cause::MalformedValue),
            }
        } else if response.status == STATUS_TOO_MANY_REQUESTS {
            self.retry_later(response)
        } else if retries < self.policy.max_retries {
            self.go(
                Phase::Fetch { retries: (retries + 1) as u64 },
                backoff_secs(self.policy.min_backoff_secs, retries),
            )
        } else {
            self.fail(0, Cause::RetriesExhausted)
        }
    }

    /// The answer to a submission.
    pub open spec fn on_submit_response(self, response: ResponseView) -> (RunView, Action) {
        if is_applied(response.status) {
            match delay_secs(response.backoff, 0) {
                Some(wait_secs) => self.advance(wait_secs),
                None => self.fail(0, Cause::MalformedValue),
            }
        } else if response.status == STATUS_TOO_MANY_REQUESTS {
            self.retry_later(response)
        } else if response.status == STATUS_PRECONDITION_FAILED {
            self.go(Phase::Fetch { retries: 0 }, 0)
        } else {
            self.fail(0, Cause::Status(response.status))
        }
    }

    /// The state after `event`, and what to do then.
    pub open spec fn step(self, event: EventView) -> (RunView, Action) {
        match self.phase {
            Phase::Done(_) => self.go(self.phase, 0),
            Phase::Fetch { retries } => match event {
                EventView::Response(response) => self.on_fetch_response(retries, response),
                EventView::TransportFailure => self.fail(0, Cause::Transport),
                EventView::Cancelled => self.fail(0, Cause::Cancelled),
            },
            Phase::Submit { .. } => match event {
                EventView::Response(response) => self.on_submit_response(response),
                EventView::TransportFailure => self.fail(0, Cause::Transport),
                EventView::Cancelled => self.fail(0, Cause::Cancelled),
            },
        }
    }

    /// The state after `events`, taken in order.
    pub open spec fn after(self, events: Seq<EventView>) -> RunView
        decreases events.len(),
    {
        if events.len() == 0 {
            self
        } else {
            self.after(events.drop_last()).step(events.last()).0
        }
    }

    /// The answers to `events`, taken in order: one action for each.
    pub open spec fn answers(self, events: Seq<EventView>) -> Seq<Action> {
        Seq::new(
            events.len(),
            |i: int| self.after(events.subrange(0, i)).step(events[i]).1,
        )
    }
}

/// One run over a list of records.
#[derive(Debug)]
pub struct PatchRun {
    batches: Vec<Vec<PatchData>>,
    policy: RetryPolicy,
    index: usize,
    phase: Phase,
}

impl View for PatchRun {
    type V = RunView;

    closed spec fn view(&self) -> RunView {
        RunView {
            batches: contents(self.batches@),
            policy: self.policy@,
            index: self.index,
            phase: self.phase,
        }
    }
}

/// Reads the seconds that `header` asks for.
fn read_delay(header: &Option<HeaderValue>, absent: u64) -> (secs: Option<u64>)
    ensures
        secs == delay_secs(header_view(*header), absent),
{
    match header {
        Some(value) => value.to_u64(),
        None => Some(absent),
    }
}

impl PatchRun {
    /// A run that is to apply `data` in order, before its first request.
    /// With no records there is nothing to request and the run has ended.
    pub fn new(policy: RetryPolicy, data: Vec<PatchData>) -> (run: PatchRun)
        ensures
            run@.wf(),
            run@.batches == batches(data@),
            run@.records() == data@,
            run@.policy == policy@,
            run@.index == 0,
            run@.phase == (if data@.len() == 0 {
                Phase::Done(Ok(()))
            } else {
                Phase::Fetch { retries: 0 }
            }),
    {
        proof {
            use_type_invariant(&policy);
            crate::batch::lemma_batches_partition(data@);
        }
        let parts = split_batches(data);
        let phase = if parts.len() == 0 {
            Phase::Done(Ok(()))
        } else {
            Phase::Fetch { retries: 0 }
        };
        PatchRun { batches: parts, policy, index: 0, phase }
    }

    /// What the driver is to do now.
    pub fn pending(&self) -> (step: Step)
        ensures
            step == self@.pending(),
    {
        match self.phase {
            Phase::Fetch { .. } => Step::FetchVersion,
            Phase::Submit { version } => Step::Submit { version, batch: self.index },
            Phase::Done(outcome) => Step::Finish(outcome),
        }
    }

    /// How many batches the run has.
    pub fn batch_count(&self) -> (count: usize)
        ensures
            count == self@.batches.len(),
    {
        self.batches.len()
    }

    /// The records of batch `index`, or `None` where the run has no such
    /// batch.
    pub fn batch(&self, index: usize) -> (records: Option<&Vec<PatchData>>)
        ensures
            records is Some <==> index < self@.batches.len(),
            records matches Some(found) ==> found@ == self@.batches[index as int],
    {
        if index < self.batches.len() {
            Some(&self.batches[index])
        } else {
            None
        }
    }

    /// How many batches have been applied.
    pub fn applied(&self) -> (count: usize)
        ensures
            count == self@.index,
    {
        self.index
    }

    /// The result of the run, once it has ended.
    pub fn outcome(&self) -> (outcome: Option<Result<(), SyncError>>)
        ensures
            outcome == (match self@.phase {
                Phase::Done(result) => Some(result),
                _ => None,
            }),
    {
        match self.phase {
            Phase::Done(result) => Some(result),
            _ => None,
        }
    }

    fn go(&mut self, phase: Phase, wait_secs: u64) -> (action: Action)
        ensures
            (final(self)@, action) == old(self)@.go(phase, wait_secs),
    {
        self.phase = phase;
        Action { wait_secs, step: self.pending() }
    }

    fn fail(&mut self, wait_secs: u64, cause: Cause) -> (action: Action)
        ensures
            (final(self)@, action) == old(self)@.fail(wait_secs, cause),
    {
        self.go(Phase::Done(Err(SyncError { batch: self.index, cause })), wait_secs)
    }

    fn advance(&mut self, wait_secs: u64) -> (action: Action)
        requires
            old(self)@.index < old(self)@.batches.len(),
        ensures
            (final(self)@, action) == old(self)@.advance(wait_secs),
    {
        let count = self.batches.len();
        assert(self@.batches.len() == count);
        self.index = self.index + 1;
        if self.index < count {
            self.go(Phase::Fetch { retries: 0 }, wait_secs)
        } else {
            self.go(Phase::Done(Ok(())), wait_secs)
        }
    }

    fn retry_later(&mut self, response: &Response) -> (action: Action)
        ensures
            (final(self)@, action) == old(self)@.retry_later(response@),
    {
        match read_delay(&response.retry_after, self.policy.min_backoff_secs) {
            Some(wait_secs) => self.go(self.phase, wait_secs),
            None => self.fail(0, Cause::MalformedValue),
        }
    }

    fn on_fetch_response(&mut self, retries: u64, response: &Response) -> (action: Action)
        ensures
            (final(self)@, action) == old(self)@.on_fetch_response(retries, response@),
    {
        if response.status == STATUS_OK {
            match read_delay(&response.backoff, 0) {
                Some(wait_secs) => match &response.version {
                    Some(value) => match value.to_u64() {
                        Some(version) => self.go(Phase::Submit { version }, wait_secs),
                        None => self.fail(wait_secs, Cause::MalformedValue),
                    },
                    None => self.fail(wait_secs, Cause::MissingVersion),
                },
                None => self.fail(0, Cause::MalformedValue),
            }
        } else if response.status == STATUS_TOO_MANY_REQUESTS {
            self.retry_later(response)
        } else if retries < self.policy.max_retries {
            let wait_secs = self.policy.backoff(retries);
            self.go(Phase::Fetch { retries: retries + 1 }, wait_secs)
        } else {
            self.fail(0, Cause::RetriesExhausted)
        }
    }

    fn on_submit_response(&mut self, response: &Response) -> (action: Action)
        requires
            old(self)@.index < old(self)@.batches.len(),
        ensures
            (final(self)@, action) == old(self)@.on_submit_response(response@),
    {
        if response.status == STATUS_OK || response.status == STATUS_NO_CONTENT {
            match read_delay(&response.backoff, 0) {
                Some(wait_secs) => self.advance(wait_secs),
                None => self.fail(0, Cause::MalformedValue),
            }
        } else if response.status == STATUS_TOO_MANY_REQUESTS {
            self.retry_later(response)
        } else if response.status == STATUS_PRECONDITION_FAILED {
            self.go(Phase::Fetch { retries: 0 }, 0)
        } else {
            self.fail(0, Cause::Status(response.status))
        }
    }

    /// Takes in what came back for the step that was due, and answers with
    /// how long to wait and what to do next. Once the run has ended, every
    /// event leaves it as it is.
    pub fn step(&mut self, event: &Event) -> (action: Action)
        requires
            old(self)@.wf(),
        ensures
            (final(self)@, action) == old(self)@.step(event@),
            final(self)@.wf(),
    {
        proof {
            lemma_step_keeps_wf(self@, event@);
        }
        match self.phase {
            Phase::Done(_) => self.go(self.phase, 0),
            Phase::Fetch { retries } => match event {
                Event::Response(response) => self.on_fetch_response(retries, response),
                Event::TransportFailure => self.fail(0, Cause::Transport),
                Event::Cancelled => self.fail(0, Cause::Cancelled),
            },
            Phase::Submit { .. } => match event {
                Event::Response(response) => self.on_submit_response(response),
                Event::TransportFailure => self.fail(0, Cause::Transport),
                Event::Cancelled => self.fail(0, Cause::Cancelled),
            },
        }
    }
}

impl PatchRun {
    /// Takes in `events` one after the other, as [`PatchRun::step`] does, and
    /// gives the answer to each.
    pub fn replay(&mut self, events: &[Event]) -> (actions: Vec<Action>)
        requires
            old(self)@.wf(),
        ensures
            final(self)@ == old(self)@.after(event_views(events@)),
            actions@ == old(self)@.answers(event_views(events@)),
            final(self)@.wf(),
    {
        let ghost start = self@;
        let ghost all = event_views(events@);
        let mut actions: Vec<Action> = Vec::with_capacity(events.len());
        let mut i: usize = 0;
        assert(all.subrange(0, 0) =~= Seq::<EventView>::empty());
        while i < events.len()
            invariant
                i <= events@.len(),
                all == event_views(events@),
                start.wf(),
                self@.wf(),
                self@ == start.after(all.subrange(0, i as int)),
                actions@.len() == i,
                forall|j: int| 0 <= j < i ==> #[trigger] actions@[j] == start.answers(all)[j],
            decreases events@.len() - i,
        {
            let ghost before = all.subrange(0, i as int);
            let ghost with_this = all.subrange(0, i + 1);
            assert(with_this.drop_last() =~= before);
            assert(with_this.last() == events@[i as int]@);
            let action = self.step(&events[i]);
            actions.push(action);
            i += 1;
        }
        assert(all.subrange(0, i as int) =~= all);
        assert(actions@ =~= start.answers(all));
        actions
    }
}

/// A step leaves a well-formed run well formed, with the same batches and
/// policy, and the action it answers with names what is due afterwards.
pub proof fn lemma_step_keeps_wf(run: RunView, event: EventView)
    requires
        run.wf(),
    ensures
        run.step(event).0.wf(),
        run.step(event).0.batches == run.batches,
        run.step(event).0.policy == run.policy,
        run.step(event).1.step == run.step(event).0.pending(),
{
}

} // verus!
