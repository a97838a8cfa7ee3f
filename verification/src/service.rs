//! The request dispatch core: a registry of in-flight requests keyed by a
//! monotonic identifier, each entry holding the cancellation handle of its
//! spawned task, driven by a serialized command stream.
//!
//! The service here is the decision half of the dispatch actor: it absorbs
//! one command at a time, mutates the bookkeeping, fires cancellation
//! handles, and tells the surrounding runtime what outside work is owed (a
//! task to spawn, a transport client to rebuild). The runtime performs that
//! work and feeds the resulting events back in as further commands.

use vstd::prelude::*;
use crate::rest::{CancelErr, Error, Response, RestRequest};

verus! {

/// One half of a one-shot cancellation pair; the in-flight registry holds
/// it, and firing it makes the paired task resolve as cancelled.
pub struct CancelHandle {
    tx: futures::channel::oneshot::Sender<()>,
}

/// The other half: the spawned request task races this signal against its
/// transport call.
pub struct CancelSignal {
    rx: futures::channel::oneshot::Receiver<()>,
}

#[verifier::external_type_specification]
#[verifier::external_body]
#[verifier::reject_recursive_types(T)]
pub struct ExOneshotSender<T>(futures::channel::oneshot::Sender<T>);

#[verifier::external_type_specification]
#[verifier::external_body]
#[verifier::reject_recursive_types(T)]
pub struct ExOneshotReceiver<T>(futures::channel::oneshot::Receiver<T>);

#[verifier::external_type_specification]
#[verifier::external_body]
pub struct ExOneshotCanceled(futures::channel::oneshot::Canceled);

/// Relies on futures::channel::oneshot::channel: it returns a fresh,
/// connected sender/receiver pair.
#[verifier::external_body]
fn oneshot_unit_channel() -> (futures::channel::oneshot::Sender<()>, futures::channel::oneshot::Receiver<()>) {
    futures::channel::oneshot::channel()
}

impl CancelHandle {
    /// Fires the cancellation signal. Relies on
    /// futures::channel::oneshot::Sender::send; when the paired receiver is
    /// already gone the send only reports so, and the report is discarded,
    /// as a task that finished needs no cancelling.
    #[verifier::external_body]
    fn cancel(self) {
        let _ = self.tx.send(());
    }
}

/// Creates a fresh cancellation pair: the handle for the registry, the
/// signal for the task.
pub fn new_cancel_pair() -> (CancelHandle, CancelSignal) {
    let (tx, rx) = oneshot_unit_channel();
    (CancelHandle { tx }, CancelSignal { rx })
}

impl CancelSignal {
    /// Hands the underlying receiver to the task that awaits the signal.
    pub fn into_receiver(self) -> futures::channel::oneshot::Receiver<()> {
        self.rx
    }
}

/// The mathematical state of the dispatch service: the identifier the next
/// submission gets, and the set of identifiers now in flight.
pub ghost struct ServiceModel {
    pub next_id: u64,
    pub in_flight: Set<u64>,
}

/// The state a service starts in, and returns to on reset.
pub open spec fn fresh_model() -> ServiceModel {
    ServiceModel { next_id: 0, in_flight: Set::empty() }
}

/// One command, as the bookkeeping sees it: what a submission carries does
/// not affect the registry.
pub ghost enum CommandModel {
    Submit,
    Finished(u64),
    Reset,
}

/// Identifier allocation wraps around at the end of the space.
pub open spec fn wrap_inc(id: u64) -> u64 {
    if id == u64::MAX {
        0
    } else {
        (id + 1) as u64
    }
}

/// How one command changes the state: a submission takes the next
/// identifier and registers it; a finish withdraws its identifier, known or
/// not; a reset returns to the fresh state.
pub open spec fn model_step(m: ServiceModel, c: CommandModel) -> ServiceModel {
    match c {
        CommandModel::Submit => ServiceModel {
            next_id: wrap_inc(m.next_id),
            in_flight: m.in_flight.insert(m.next_id),
        },
        CommandModel::Finished(id) => ServiceModel {
            next_id: m.next_id,
            in_flight: m.in_flight.remove(id),
        },
        CommandModel::Reset => fresh_model(),
    }
}

/// The state after a whole command sequence.
pub open spec fn model_run(m: ServiceModel, cmds: Seq<CommandModel>) -> ServiceModel
    decreases cmds.len(),
{
    if cmds.len() == 0 {
        m
    } else {
        model_run(model_step(m, cmds[0]), cmds.drop_first())
    }
}

/// The serialized commands the service absorbs, one at a time.
pub enum RequestCommand {
    /// A caller submits a request.
    NewRequest(RestRequest),
    /// A spawned task reports that its request concluded.
    RequestFinished(u64),
    /// Cancel everything in flight and start over with a fresh transport
    /// client.
    Reset,
}

impl RequestCommand {
    pub open spec fn model(self) -> CommandModel {
        match self {
            RequestCommand::NewRequest(_) => CommandModel::Submit,
            RequestCommand::RequestFinished(id) => CommandModel::Finished(id),
            RequestCommand::Reset => CommandModel::Reset,
        }
    }
}

/// The outside work one absorbed command leaves for the runtime around the
/// service.
pub enum Action {
    /// Spawn a detached task for this request: run the transport call, race
    /// it against the signal and the request's deadline, report the outcome
    /// to the caller, and feed `RequestFinished(id)` back in.
    Spawn { id: u64, request: RestRequest, signal: CancelSignal },
    /// A reset was absorbed: the pooled transport client is stale and must
    /// be replaced by a fresh one built from the connector template.
    RebuildClient,
    /// Nothing is owed.
    Nothing,
}

/// The dispatch service's bookkeeping: the next identifier and the
/// in-flight registry, an ordered map from identifier to the cancellation
/// handle of the request's task. Only the single actor that owns the
/// service mutates it, one command at a time.
pub struct RequestService {
    next_id: u64,
    in_flight_requests: Vec<(u64, CancelHandle)>,
}

impl RequestService {
    /// The registry's identifiers, in insertion order.
    pub closed spec fn ids(self) -> Seq<u64> {
        self.in_flight_requests@.map_values(|e: (u64, CancelHandle)| e.0)
    }

    /// Well-formedness: no identifier occurs twice in the registry.
    pub closed spec fn wf(self) -> bool {
        self.ids().no_duplicates()
    }
}

impl View for RequestService {
    type V = ServiceModel;

    closed spec fn view(&self) -> ServiceModel {
        ServiceModel { next_id: self.next_id, in_flight: self.ids().to_set() }
    }
}

impl RequestService {
    pub fn new() -> (s: RequestService)
        ensures
            s.wf(),
            s@ == fresh_model(),
    {
        let s = RequestService { next_id: 0, in_flight_requests: Vec::new() };
        proof {
            assert(s.ids() =~= Seq::<u64>::empty());
            assert(s.ids().to_set() =~= Set::<u64>::empty());
        }
        s
    }

    /// How many requests are in flight.
    pub fn num_in_flight(&self) -> (n: usize)
        requires
            self.wf(),
        ensures
            n == self@.in_flight.len(),
    {
        proof {
            self.ids().unique_seq_to_set();
        }
        self.in_flight_requests.len()
    }

    /// Whether an identifier is in flight.
    pub fn is_in_flight(&self, id: u64) -> (b: bool)
        ensures
            b == self@.in_flight.contains(id),
    {
        let n = self.in_flight_requests.len();
        let mut i: usize = 0;
        while i < n
            invariant
                0 <= i <= n,
                n == self.ids().len(),
                forall|j: int| 0 <= j < i ==> self.ids()[j] != id,
            decreases n - i,
        {
            if self.in_flight_requests[i].0 == id {
                proof {
                    assert(self.ids()[i as int] == id);
                    assert(self.ids().to_set().contains(id));
                }
                return true;
            }
            i = i + 1;
        }
        proof {
            assert(!self.ids().contains(id));
            assert(!self.ids().to_set().contains(id));
        }
        false
    }

    /// Allocates the next identifier, wrapping at the end of the space.
    fn id(&mut self) -> (id: u64)
        ensures
            id == old(self).next_id,
            final(self).next_id == wrap_inc(old(self).next_id),
            final(self).in_flight_requests == old(self).in_flight_requests,
    {
        let id = self.next_id;
        self.next_id = if id == u64::MAX {
            0
        } else {
            id + 1
        };
        id
    }

    /// Withdraws an identifier from the registry; an unknown identifier is
    /// not an error (its entry may have been cleared by a reset already).
    /// The withdrawn handle is dropped without firing.
    fn remove_in_flight(&mut self, id: u64)
        requires
            old(self).wf(),
        ensures
            final(self).wf(),
            final(self).ids().to_set() == old(self).ids().to_set().remove(id),
            final(self).next_id == old(self).next_id,
    {
        let n = self.in_flight_requests.len();
        let mut i: usize = 0;
        while i < n
            invariant
                *self == *old(self),
                self.wf(),
                0 <= i <= n,
                n == self.ids().len(),
                forall|j: int| 0 <= j < i ==> self.ids()[j] != id,
            decreases n - i,
        {
            if self.in_flight_requests[i].0 == id {
                let ghost pre = self.ids();
                self.in_flight_requests.remove(i);
                proof {
                    assert(self.ids() =~= pre.remove(i as int));
                    lemma_remove_at_to_set(pre, i as int, id);
                }
                return ;
            }
            i = i + 1;
        }
        proof {
            assert(!self.ids().contains(id));
            assert(!self.ids().to_set().contains(id));
            assert(self.ids().to_set().remove(id) =~= self.ids().to_set());
        }
    }

    /// Registers an identifier with its cancellation handle. A colliding
    /// identifier (possible only after wraparound) replaces its entry, as an
    /// ordered-map insert would; the stale handle is dropped without firing.
    fn insert_in_flight(&mut self, id: u64, handle: CancelHandle)
        requires
            old(self).wf(),
        ensures
            final(self).wf(),
            final(self).ids().to_set() == old(self).ids().to_set().insert(id),
            final(self).next_id == old(self).next_id,
    {
        self.remove_in_flight(id);
        let ghost pre = self.ids();
        proof {
            assert(!pre.contains(id)) by {
                assert(!pre.to_set().contains(id));
            };
        }
        self.in_flight_requests.push((id, handle));
        proof {
            assert(self.ids() =~= pre.push(id));
            lemma_push_to_set(pre, id);
            assert(self.ids().no_duplicates());
        }
    }

    /// Cancels everything: swaps the registry for an empty one, fires every
    /// handle it held, and starts identifier allocation over. The transport
    /// client the runtime holds is stale after this; the caller of this
    /// step owes a rebuilt client.
    fn reset(&mut self)
        requires
            old(self).wf(),
        ensures
            final(self).wf(),
            final(self)@ == fresh_model(),
    {
        while self.in_flight_requests.len() > 0
            invariant
                self.wf(),
            decreases self.in_flight_requests.len(),
        {
            let ghost pre = self.ids();
            match self.in_flight_requests.pop() {
                Some((_, handle)) => {
                    proof {
                        assert(self.ids() =~= pre.drop_last());
                    }
                    handle.cancel();
                },
                None => (),
            }
        }
        self.next_id = 0;
        proof {
            assert(self.ids() =~= Seq::<u64>::empty());
            assert(self.ids().to_set() =~= Set::<u64>::empty());
        }
    }

    /// Absorbs one command: the registry and the identifier counter move as
    /// the model says, and the returned action is the outside work owed —
    /// a task to spawn for a submission (under the identifier the model
    /// allocated, holding the signal paired with the registered handle), a
    /// client to rebuild for a reset, nothing for a finish.
    pub fn process_command(&mut self, command: RequestCommand) -> (action: Action)
        requires
            old(self).wf(),
        ensures
            final(self).wf(),
            final(self)@ == model_step(old(self)@, command.model()),
            match command {
                RequestCommand::NewRequest(req) => action matches Action::Spawn {
                    id,
                    request,
                    signal,
                } && id == old(self)@.next_id && request == req,
                RequestCommand::RequestFinished(_) => action matches Action::Nothing,
                RequestCommand::Reset => action matches Action::RebuildClient,
            },
    {
        match command {
            RequestCommand::NewRequest(request) => {
                let id = self.id();
                let (handle, signal) = new_cancel_pair();
                self.insert_in_flight(id, handle);
                Action::Spawn { id, request, signal }
            },
            RequestCommand::RequestFinished(id) => {
                self.remove_in_flight(id);
                Action::Nothing
            },
            RequestCommand::Reset => {
                self.reset();
                Action::RebuildClient
            },
        }
    }
}

/// What the transport call itself produced, once it finished: the server's
/// response, or the transport layer's failure report.
pub enum TransportOutcome {
    Reply(Response),
    Failure(String),
}

/// Whether the cancellation signal wins the race: it fired, no later than
/// the deadline and no later than the transport call finished. A tie goes
/// to the signal — the select between signal and call polls the signal
/// first, and the deadline polls the selected pair before itself.
pub open spec fn cancel_wins(
    transport_at: Option<u64>,
    cancel_at: Option<u64>,
    timeout_ms: u64,
) -> bool {
    match cancel_at {
        Some(c) => c <= timeout_ms && (match transport_at {
            Some(t) => c <= t,
            None => true,
        }),
        None => false,
    }
}

/// Whether the transport call wins: it finished, strictly before any
/// cancellation, and no later than the deadline (on that tie, the deadline
/// polls the call first and takes its result).
pub open spec fn transport_wins(
    transport_at: Option<u64>,
    cancel_at: Option<u64>,
    timeout_ms: u64,
) -> bool {
    !cancel_wins(transport_at, cancel_at, timeout_ms) && (match transport_at {
        Some(t) => t <= timeout_ms,
        None => false,
    })
}

/// The terminal outcome of one spawned request task, as a function of which
/// event came first. The three outcomes are mutually exclusive: the signal
/// yields `Cancelled`, the transport call yields its own result, and
/// otherwise the deadline yields `TimedOut`.
pub open spec fn spec_resolve(
    transport: Option<(u64, TransportOutcome)>,
    cancel_at: Option<u64>,
    timeout_ms: u64,
) -> Result<Response, Error> {
    let transport_at = match transport {
        Some(p) => Some(p.0),
        None => None,
    };
    if cancel_wins(transport_at, cancel_at, timeout_ms) {
        Err(Error::Cancelled(CancelErr))
    } else if transport_wins(transport_at, cancel_at, timeout_ms) {
        match transport {
            Some(p) => match p.1 {
                TransportOutcome::Reply(response) => Ok(response),
                TransportOutcome::Failure(report) => Err(Error::TransportError(report)),
            },
            None => Err(Error::TimedOut),  // unreachable: the transport cannot win without finishing
        }
    } else {
        Err(Error::TimedOut)
    }
}

/// Resolves the race one request task runs: the transport call (with the
/// instant it finished, if it did), the cancellation signal (with the
/// instant it fired, if it did), and the deadline, all instants in
/// milliseconds from the task's start. The earliest event decides; ties go
/// as the polling order says (signal over call, call over deadline).
pub fn resolve_request(
    transport: Option<(u64, TransportOutcome)>,
    cancel_at: Option<u64>,
    timeout_ms: u64,
) -> (r: Result<Response, Error>)
    ensures
        r == spec_resolve(transport, cancel_at, timeout_ms),
{
    let transport_at: Option<u64> = match &transport {
        Some(p) => Some(p.0),
        None => None,
    };
    let cancelled = match (cancel_at, &transport_at) {
        (Some(c), Some(t)) => c <= timeout_ms && c <= *t,
        (Some(c), None) => c <= timeout_ms,
        (None, _) => false,
    };
    if cancelled {
        return Err(Error::Cancelled(CancelErr));
    }
    match transport {
        Some((t, outcome)) => {
            if t <= timeout_ms {
                match outcome {
                    TransportOutcome::Reply(response) => Ok(response),
                    TransportOutcome::Failure(report) => Err(Error::TransportError(report)),
                }
            } else {
                Err(Error::TimedOut)
            }
        },
        None => Err(Error::TimedOut),
    }
}

/// Law: the registry size tracks submissions. A submission with a fresh
/// identifier grows it by one (a colliding identifier, possible only after
/// wraparound, replaces its entry); a finish of an in-flight identifier
/// shrinks it by one; a finish of an unknown identifier leaves it alone; a
/// reset empties it.
pub proof fn lemma_registry_size_step(m: ServiceModel, c: CommandModel)
    requires
        m.in_flight.finite(),
    ensures
        model_step(m, c).in_flight.finite(),
        match c {
            CommandModel::Submit => model_step(m, c).in_flight.len() == if m.in_flight.contains(
                m.next_id,
            ) {
                m.in_flight.len()
            } else {
                m.in_flight.len() + 1
            },
            CommandModel::Finished(id) => model_step(m, c).in_flight.len() == if m.in_flight.contains(
                id,
            ) {
                m.in_flight.len() - 1
            } else {
                m.in_flight.len() as int
            },
            CommandModel::Reset => model_step(m, c).in_flight.len() == 0,
        },
{
    broadcast use vstd::set::group_set_axioms;

    match c {
        CommandModel::Submit => {
            if m.in_flight.contains(m.next_id) {
                assert(m.in_flight.insert(m.next_id) =~= m.in_flight);
            }
        },
        CommandModel::Finished(id) => {
            if !m.in_flight.contains(id) {
                assert(m.in_flight.remove(id) =~= m.in_flight);
            }
        },
        CommandModel::Reset => {},
    }
}

/// No submission along the run is handed an identifier that is still in
/// flight. This holds whenever fewer identifiers are handed out between two
/// resets than the identifier space holds.
pub open spec fn collision_free(m: ServiceModel, cmds: Seq<CommandModel>) -> bool
    decreases cmds.len(),
{
    cmds.len() == 0 || {
        &&& (cmds[0] is Submit ==> !m.in_flight.contains(m.next_id))
        &&& collision_free(model_step(m, cmds[0]), cmds.drop_first())
    }
}

pub open spec fn all_submits(cmds: Seq<CommandModel>) -> bool {
    forall|i: int| 0 <= i < cmds.len() ==> cmds[i] is Submit
}

/// Law: with no finish and no reset in between, submissions accumulate —
/// the registry grows by exactly the number of submissions, provided none
/// of them collides with an identifier still in flight.
pub proof fn lemma_submissions_accumulate(m: ServiceModel, cmds: Seq<CommandModel>)
    requires
        m.in_flight.finite(),
        all_submits(cmds),
        collision_free(m, cmds),
    ensures
        model_run(m, cmds).in_flight.finite(),
        model_run(m, cmds).in_flight.len() == m.in_flight.len() + cmds.len(),
    decreases cmds.len(),
{
    if cmds.len() > 0 {
        assert(cmds[0] is Submit);
        lemma_registry_size_step(m, cmds[0]);
        assert(all_submits(cmds.drop_first()));
        lemma_submissions_accumulate(model_step(m, cmds[0]), cmds.drop_first());
    }
}

/// From a state whose registry holds exactly the identifiers below the
/// counter, a burst of submissions cannot collide until the counter has
/// wrapped all the way around.
proof fn lemma_no_collision_below_counter(m: ServiceModel, cmds: Seq<CommandModel>)
    requires
        all_submits(cmds),
        m.in_flight == Set::new(|x: u64| x < m.next_id),
        m.next_id + cmds.len() <= u64::MAX + 1,
    ensures
        collision_free(m, cmds),
    decreases cmds.len(),
{
    if cmds.len() > 0 {
        assert(cmds[0] is Submit);
        assert(!m.in_flight.contains(m.next_id));
        if cmds.len() == 1 {
            assert(cmds.drop_first().len() == 0);
            assert(collision_free(model_step(m, cmds[0]), cmds.drop_first()));
        }
        if cmds.len() > 1 {
            let m2 = model_step(m, cmds[0]);
            assert(m.next_id < u64::MAX);
            assert(m2.in_flight =~= Set::new(|x: u64| x < m2.next_id));
            assert(all_submits(cmds.drop_first()));
            lemma_no_collision_below_counter(m2, cmds.drop_first());
        }
    }
}

/// Law: from a fresh service, a burst of submissions leaves exactly one
/// in-flight entry per submission — the registry size equals the number of
/// submissions not yet matched by a finish or a reset — as long as one
/// burst does not exhaust the whole identifier space.
pub proof fn lemma_fresh_burst_accumulates(cmds: Seq<CommandModel>)
    requires
        all_submits(cmds),
        cmds.len() <= 0x1_0000_0000_0000_0000,
    ensures
        collision_free(fresh_model(), cmds),
        model_run(fresh_model(), cmds).in_flight.len() == cmds.len(),
{
    broadcast use vstd::set::group_set_axioms;

    assert(fresh_model().in_flight =~= Set::new(|x: u64| x < 0u64));
    lemma_no_collision_below_counter(fresh_model(), cmds);
    lemma_submissions_accumulate(fresh_model(), cmds);
}

/// The identifiers the run hands out to its submissions, in order.
pub open spec fn allocated_ids(m: ServiceModel, cmds: Seq<CommandModel>) -> Seq<u64>
    decreases cmds.len(),
{
    if cmds.len() == 0 {
        Seq::empty()
    } else {
        let rest = allocated_ids(model_step(m, cmds[0]), cmds.drop_first());
        if cmds[0] is Submit {
            seq![m.next_id] + rest
        } else {
            rest
        }
    }
}

/// Each submission of an all-submission run gets the starting counter plus
/// its position, while the counter does not wrap.
proof fn lemma_allocated_ids_arithmetic(m: ServiceModel, cmds: Seq<CommandModel>)
    requires
        all_submits(cmds),
        m.next_id + cmds.len() <= u64::MAX + 1,
    ensures
        allocated_ids(m, cmds).len() == cmds.len(),
        forall|i: int|
            0 <= i < cmds.len() ==> allocated_ids(m, cmds)[i] == m.next_id + i,
    decreases cmds.len(),
{
    if cmds.len() > 0 {
        assert(cmds[0] is Submit);
        let m2 = model_step(m, cmds[0]);
        assert(all_submits(cmds.drop_first()));
        lemma_allocated_ids_arithmetic(m2, cmds.drop_first());
        assert forall|i: int| 0 <= i < cmds.len() implies allocated_ids(m, cmds)[i] == m.next_id
            + i by {
            if i > 0 {
                assert(allocated_ids(m, cmds)[i] == allocated_ids(m2, cmds.drop_first())[i - 1]);
            }
        };
    }
}

/// Law: submitting requests with no reset in between yields strictly
/// increasing identifiers until the counter wraps around. (Past wraparound
/// the registry still keeps in-flight identifiers unique: a submission
/// handed a still-outstanding identifier replaces that entry rather than
/// duplicating it.)
pub proof fn lemma_ids_strictly_increasing(m: ServiceModel, cmds: Seq<CommandModel>)
    requires
        all_submits(cmds),
        m.next_id + cmds.len() <= u64::MAX + 1,
    ensures
        allocated_ids(m, cmds).len() == cmds.len(),
        forall|i: int, j: int|
            0 <= i < j < cmds.len() ==> allocated_ids(m, cmds)[i] < allocated_ids(m, cmds)[j],
{
    lemma_allocated_ids_arithmetic(m, cmds);
}

/// Law: a reset leaves the registry empty and every previously in-flight
/// request cancelled — a request whose cancellation signal fired no later
/// than its transport call and its deadline resolves as `Cancelled`, not as
/// `TimedOut` and not as a success.
pub proof fn lemma_reset_cancels_everything(
    m: ServiceModel,
    transport: Option<(u64, TransportOutcome)>,
    cancel_at: Option<u64>,
    timeout_ms: u64,
)
    requires
        cancel_at matches Some(c) && c <= timeout_ms && (transport matches Some(p) ==> c <= p.0),
    ensures
        model_step(m, CommandModel::Reset).in_flight == Set::<u64>::empty(),
        model_step(m, CommandModel::Reset).next_id == 0,
        spec_resolve(transport, cancel_at, timeout_ms) == Err::<Response, Error>(
            Error::Cancelled(CancelErr),
        ),
{
}

/// Law: a request whose transport call finishes strictly before its
/// deadline and strictly before any cancellation signal resolves to the
/// call's own result — never as `Cancelled`, never as `TimedOut`.
pub proof fn lemma_prompt_completion_resolves(
    transport_at: u64,
    outcome: TransportOutcome,
    cancel_at: Option<u64>,
    timeout_ms: u64,
)
    requires
        transport_at < timeout_ms,
        cancel_at matches Some(c) ==> transport_at < c,
    ensures
        spec_resolve(Some((transport_at, outcome)), cancel_at, timeout_ms) == (match outcome {
            TransportOutcome::Reply(response) => Ok::<Response, Error>(response),
            TransportOutcome::Failure(report) => Err::<Response, Error>(
                Error::TransportError(report),
            ),
        }),
        !(spec_resolve(Some((transport_at, outcome)), cancel_at, timeout_ms) matches Err(e)
            && (e matches Error::Cancelled(_) || e is TimedOut)),
{
}

/// Law: a request whose deadline elapses strictly before its transport call
/// finishes (or whose call never finishes), with no cancellation signal up
/// to the deadline, resolves as `TimedOut`; and once its task reports back,
/// its identifier is out of the registry.
pub proof fn lemma_timeout_resolves(
    m: ServiceModel,
    id: u64,
    transport: Option<(u64, TransportOutcome)>,
    cancel_at: Option<u64>,
    timeout_ms: u64,
)
    requires
        transport matches Some(p) ==> p.0 > timeout_ms,
        cancel_at matches Some(c) ==> c > timeout_ms,
    ensures
        spec_resolve(transport, cancel_at, timeout_ms) == Err::<Response, Error>(Error::TimedOut),
        !model_step(m, CommandModel::Finished(id)).in_flight.contains(id),
{
    broadcast use vstd::set::group_set_axioms;

}

/// Pushing an identifier adds exactly it to the registry's set.
proof fn lemma_push_to_set(s: Seq<u64>, x: u64)
    ensures
        s.push(x).to_set() == s.to_set().insert(x),
{
    assert forall|y: u64| s.push(x).to_set().contains(y) <==> s.to_set().insert(x).contains(
        y,
    ) by {
        if s.push(x).to_set().contains(y) {
            let i = choose|i: int| 0 <= i < s.push(x).len() && s.push(x)[i] == y;
            if i < s.len() {
                assert(s[i] == y);
            }
        }
        if s.to_set().insert(x).contains(y) {
            if y == x {
                assert(s.push(x)[s.len() as int] == y);
            } else {
                let i = choose|i: int| 0 <= i < s.len() && s[i] == y;
                assert(s.push(x)[i] == y);
            }
        }
    };
    assert(s.push(x).to_set() =~= s.to_set().insert(x));
}

/// Removing the only occurrence of an identifier withdraws exactly it.
proof fn lemma_remove_at_to_set(s: Seq<u64>, i: int, id: u64)
    requires
        s.no_duplicates(),
        0 <= i < s.len(),
        s[i] == id,
    ensures
        s.remove(i).to_set() == s.to_set().remove(id),
        s.remove(i).no_duplicates(),
{
    assert forall|y: u64| s.remove(i).to_set().contains(y) <==> s.to_set().remove(id).contains(
        y,
    ) by {
        if s.remove(i).to_set().contains(y) {
            let j = choose|j: int| 0 <= j < s.remove(i).len() && s.remove(i)[j] == y;
            if j < i {
                assert(s[j] == y);
                assert(y != id);
            } else {
                assert(s[j + 1] == y);
                assert(y != id);
            }
        }
        if s.to_set().remove(id).contains(y) {
            let j = choose|j: int| 0 <= j < s.len() && s[j] == y;
            if j < i {
                assert(s.remove(i)[j] == y);
            } else {
                assert(j != i);
                assert(s.remove(i)[j - 1] == y);
            }
        }
    };
    assert(s.remove(i).to_set() =~= s.to_set().remove(id));
}

} // verus!
