//! Answering DNS-01 challenges: publishing a TXT record for each pending
//! authorization, waiting until the name servers serve it, and removing the records
//! once the order is no longer pending.
use crate::acme::challenge::{ChallengeFailure, ChallengeKind};
use crate::acme::{AuthorizationStatus, OrderStatus};
use crate::dns;
use crate::dns::{fqdn, DnsRecord, DnsRecordView, RecordType};
use crate::text;
use vstd::prelude::*;
use vstd::string::*;

verus! {

/// How often a published TXT record is looked for.
pub const DNS_PROPAGATION_RETRY_COUNT: usize = 30;

/// How many seconds pass between two looks.
pub const DNS_PROPAGATION_RETRY_INTERVAL: u64 = 6;

/// What an authorization offers for DNS-01.
#[derive(Debug, PartialEq, Eq)]
pub enum Dns01Offer {
    /// No DNS-01 challenge.
    Missing,
    /// A challenge for this DNS name.
    ForName(String),
    /// A challenge for an identifier of another kind.
    ForOther,
}

/// What came of the last action of a [`Dns01`].
#[derive(Debug, PartialEq, Eq)]
pub enum Dns01Event {
    /// The order has another authorization.
    Authorization { status: AuthorizationStatus, offer: Dns01Offer },
    /// The order has no further authorization.
    NoMoreAuthorizations,
    /// The name servers to ask are known.
    NameServersFound,
    /// The value that the TXT record has to hold.
    KeyAuthorization(String),
    /// The answer to the request to create the record.
    RecordCreated { success: bool, id: Option<String> },
    /// The texts of the TXT records that the name servers serve.
    Answers(Vec<String>),
    /// The TXT records could not be looked up.
    LookupFailed,
    /// The time to wait has passed.
    Waited,
    /// The challenge was declared ready.
    ChallengeReady,
    /// The order has this status.
    OrderPolled(OrderStatus),
    /// The removal of the record was tried, with or without success.
    RecordDeletionTried,
    /// The action failed.
    Failed,
}

/// What a [`Dns01`] asks for.
#[derive(Debug, PartialEq, Eq)]
pub enum Dns01Action {
    /// Fetch the next authorization of the order.
    NextAuthorization,
    /// Find the name servers of this name, and ask them from here on.
    FindNameServers(String),
    /// Compute the value that the TXT record has to hold.
    GetKeyAuthorization,
    /// Create this record.
    CreateRecord(DnsRecord),
    /// Look up the TXT records of this fully qualified name.
    LookUpTxt(String),
    /// Wait for this many seconds.
    Wait(u64),
    /// Declare the challenge ready.
    SetReady,
    /// Poll the order until it is ready or invalid.
    PollOrder,
    /// Remove the record with this id.
    DeleteRecord(String),
    /// It is over.
    Finish(Result<(), ChallengeFailure>),
}

/// The value of a [`Dns01Action`].
pub enum Dns01ActionView {
    NextAuthorization,
    FindNameServers(Seq<char>),
    GetKeyAuthorization,
    CreateRecord(DnsRecordView),
    LookUpTxt(Seq<char>),
    Wait(u64),
    SetReady,
    PollOrder,
    DeleteRecord(Seq<char>),
    Finish(Result<(), ChallengeFailure>),
}

impl View for Dns01Action {
    type V = Dns01ActionView;

    open spec fn view(&self) -> Dns01ActionView {
        match self {
            Dns01Action::NextAuthorization => Dns01ActionView::NextAuthorization,
            Dns01Action::FindNameServers(name) => Dns01ActionView::FindNameServers(name@),
            Dns01Action::GetKeyAuthorization => Dns01ActionView::GetKeyAuthorization,
            Dns01Action::CreateRecord(record) => Dns01ActionView::CreateRecord(record@),
            Dns01Action::LookUpTxt(name) => Dns01ActionView::LookUpTxt(name@),
            Dns01Action::Wait(seconds) => Dns01ActionView::Wait(*seconds),
            Dns01Action::SetReady => Dns01ActionView::SetReady,
            Dns01Action::PollOrder => Dns01ActionView::PollOrder,
            Dns01Action::DeleteRecord(id) => Dns01ActionView::DeleteRecord(id@),
            Dns01Action::Finish(outcome) => Dns01ActionView::Finish(*outcome),
        }
    }
}

/// How far the answering of DNS-01 challenges has come.
#[derive(Clone, Copy, Debug, PartialEq, Eq)]
pub enum Dns01Phase {
    /// The next authorization is awaited.
    NextAuthorization,
    /// The name servers of the current name are awaited.
    FindNameServers,
    /// The value for the TXT record is awaited.
    GetKeyAuthorization,
    /// The TXT record is being created.
    CreateRecord,
    /// The record is looked for, after this many looks in vain.
    LookUp { looks: usize },
    /// The next look is awaited, after this many looks in vain.
    Wait { looks: usize },
    /// The challenge is being declared ready.
    SetReady,
    /// The order is being polled.
    PollOrder,
    /// The outcome is certain, and this many records have been dealt with.
    CleanUp { outcome: Result<(), ChallengeFailure>, tried: usize },
}

/// The state of the answering of DNS-01 challenges.
pub struct Dns01State {
    pub phase: Dns01Phase,
    /// The DNS name of the current challenge.
    pub name: Seq<char>,
    /// The value that the TXT record has to hold.
    pub value: Seq<char>,
    /// The ids of the records created so far.
    pub records: Seq<Seq<char>>,
}

/// The name of the TXT record for a DNS name.
pub open spec fn challenge_name(name: Seq<char>) -> Seq<char> {
    "_acme-challenge."@ + name
}

/// The TXT record for a DNS name and a value.
pub open spec fn challenge_record(name: Seq<char>, value: Seq<char>) -> DnsRecordView {
    DnsRecordView {
        record_type: RecordType::Txt,
        name: challenge_name(name),
        content: "\""@ + value + "\""@,
        ttl: 120,
        proxied: false,
    }
}

impl Dns01State {
    /// The state in which nothing has been done.
    pub open spec fn start() -> Dns01State {
        Dns01State {
            phase: Dns01Phase::NextAuthorization,
            name: Seq::empty(),
            value: Seq::empty(),
            records: Seq::empty(),
        }
    }

    /// This state in another phase.
    pub open spec fn to(self, phase: Dns01Phase) -> Dns01State {
        Dns01State { phase, ..self }
    }

    /// This state with its outcome certain.
    pub open spec fn ended(self, outcome: Result<(), ChallengeFailure>) -> Dns01State {
        self.to(Dns01Phase::CleanUp { outcome, tried: 0 })
    }

    /// This state with a failure as its outcome.
    pub open spec fn failed(self, failure: ChallengeFailure) -> Dns01State {
        self.ended(Err(failure))
    }

    /// The state after an authorization.
    pub open spec fn authorized(
        self,
        status: AuthorizationStatus,
        offer: Dns01Offer,
    ) -> Dns01State {
        match status {
            AuthorizationStatus::Pending => match offer {
                Dns01Offer::Missing => self.failed(
                    ChallengeFailure::ChallengeNotFound(ChallengeKind::Dns01),
                ),
                Dns01Offer::ForOther => self.failed(ChallengeFailure::NotADnsName),
                Dns01Offer::ForName(name) => Dns01State {
                    phase: Dns01Phase::FindNameServers,
                    name: name@,
                    ..self
                },
            },
            AuthorizationStatus::Valid => self,
            _ => self.failed(ChallengeFailure::UnsupportedAuthorization(status)),
        }
    }

    /// The state after the answer to the request to create a record.
    pub open spec fn record_created(self, success: bool, id: Option<String>) -> Dns01State {
        if !success {
            self.failed(ChallengeFailure::RecordRefused)
        } else {
            Dns01State {
                phase: Dns01Phase::LookUp { looks: 0 },
                records: match id {
                    Some(id) => self.records.push(id@),
                    None => self.records,
                },
                ..self
            }
        }
    }

    /// The state after `event`. An event that the phase does not wait for counts as a
    /// failure of its action.
    pub open spec fn next(self, event: Dns01Event) -> Dns01State {
        match (self.phase, event) {
            (Dns01Phase::CleanUp { outcome, tried }, _) => if tried < self.records.len() {
                self.to(Dns01Phase::CleanUp { outcome, tried: (tried + 1) as usize })
            } else {
                self
            },
            (Dns01Phase::NextAuthorization, Dns01Event::Authorization { status, offer }) => {
                self.authorized(status, offer)
            },
            (Dns01Phase::NextAuthorization, Dns01Event::NoMoreAuthorizations) => self.to(
                Dns01Phase::PollOrder,
            ),
            (Dns01Phase::FindNameServers, Dns01Event::NameServersFound) => self.to(
                Dns01Phase::GetKeyAuthorization,
            ),
            (Dns01Phase::GetKeyAuthorization, Dns01Event::KeyAuthorization(value)) => Dns01State {
                phase: Dns01Phase::CreateRecord,
                value: value@,
                ..self
            },
            (Dns01Phase::CreateRecord, Dns01Event::RecordCreated { success, id }) => {
                self.record_created(success, id)
            },
            (Dns01Phase::LookUp { looks }, Dns01Event::Answers(answers)) => {
                if text::some_contains(answers@, self.value) {
                    self.to(Dns01Phase::SetReady)
                } else {
                    self.to(Dns01Phase::Wait { looks: (looks + 1) as usize })
                }
            },
            (Dns01Phase::LookUp { looks }, Dns01Event::LookupFailed) => self.to(
                Dns01Phase::Wait { looks: (looks + 1) as usize },
            ),
            (Dns01Phase::Wait { looks }, Dns01Event::Waited) => {
                if looks < DNS_PROPAGATION_RETRY_COUNT {
                    self.to(Dns01Phase::LookUp { looks })
                } else {
                    self.failed(ChallengeFailure::NotPropagated)
                }
            },
            (Dns01Phase::SetReady, Dns01Event::ChallengeReady) => self.to(
                Dns01Phase::NextAuthorization,
            ),
            (Dns01Phase::PollOrder, Dns01Event::OrderPolled(status)) => {
                if status == OrderStatus::Ready {
                    self.ended(Ok(()))
                } else {
                    self.failed(ChallengeFailure::UnexpectedOrder(ChallengeKind::Dns01, status))
                }
            },
            _ => self.failed(ChallengeFailure::Outside),
        }
    }

    /// What this state asks for.
    pub open spec fn action(self) -> Dns01ActionView {
        match self.phase {
            Dns01Phase::NextAuthorization => Dns01ActionView::NextAuthorization,
            Dns01Phase::FindNameServers => Dns01ActionView::FindNameServers(self.name),
            Dns01Phase::GetKeyAuthorization => Dns01ActionView::GetKeyAuthorization,
            Dns01Phase::CreateRecord => Dns01ActionView::CreateRecord(
                challenge_record(self.name, self.value),
            ),
            Dns01Phase::LookUp { .. } => Dns01ActionView::LookUpTxt(
                challenge_name(self.name) + "."@,
            ),
            Dns01Phase::Wait { .. } => Dns01ActionView::Wait(DNS_PROPAGATION_RETRY_INTERVAL),
            Dns01Phase::SetReady => Dns01ActionView::SetReady,
            Dns01Phase::PollOrder => Dns01ActionView::PollOrder,
            Dns01Phase::CleanUp { outcome, tried } => if tried < self.records.len() {
                Dns01ActionView::DeleteRecord(self.records[tried as int])
            } else {
                Dns01ActionView::Finish(outcome)
            },
        }
    }

    /// What holds of every state: the counters stay within their bounds.
    pub open spec fn wf(self) -> bool {
        match self.phase {
            Dns01Phase::LookUp { looks } => looks < DNS_PROPAGATION_RETRY_COUNT,
            Dns01Phase::Wait { looks } => 1 <= looks <= DNS_PROPAGATION_RETRY_COUNT,
            Dns01Phase::CleanUp { tried, .. } => tried <= self.records.len(),
            _ => true,
        }
    }
}

/// The answering of the DNS-01 challenges of one order.
pub struct Dns01 {
    phase: Dns01Phase,
    name: String,
    value: String,
    records: Vec<String>,
}

impl View for Dns01 {
    type V = Dns01State;

    closed spec fn view(&self) -> Dns01State {
        Dns01State {
            phase: self.phase,
            name: self.name@,
            value: self.value@,
            records: dns::strings(self.records@),
        }
    }
}

impl Dns01 {
    /// Start to answer the challenges of an order.
    pub fn new() -> (r: Dns01)
        ensures
            r@ == Dns01State::start(),
            r@.wf(),
    {
        let r = Dns01 {
            phase: Dns01Phase::NextAuthorization,
            name: String::new(),
            value: String::new(),
            records: Vec::new(),
        };
        proof {
            assert(dns::strings(r.records@) =~= Seq::<Seq<char>>::empty());
        }
        r
    }

    /// The next thing to do.
    pub fn action(&self) -> (r: Dns01Action)
        requires
            self@.wf(),
        ensures
            r@ == self@.action(),
    {
        match self.phase {
            Dns01Phase::NextAuthorization => Dns01Action::NextAuthorization,
            Dns01Phase::FindNameServers => Dns01Action::FindNameServers(self.name.clone()),
            Dns01Phase::GetKeyAuthorization => Dns01Action::GetKeyAuthorization,
            Dns01Phase::CreateRecord => Dns01Action::CreateRecord(
                DnsRecord {
                    record_type: RecordType::Txt,
                    name: text::concat2("_acme-challenge.", self.name.as_str()),
                    content: text::concat3("\"", self.value.as_str(), "\""),
                    ttl: 120,
                    proxied: false,
                },
            ),
            Dns01Phase::LookUp { .. } => {
                let name = text::concat2("_acme-challenge.", self.name.as_str());
                Dns01Action::LookUpTxt(fqdn(name.as_str()))
            },
            Dns01Phase::Wait { .. } => Dns01Action::Wait(DNS_PROPAGATION_RETRY_INTERVAL),
            Dns01Phase::SetReady => Dns01Action::SetReady,
            Dns01Phase::PollOrder => Dns01Action::PollOrder,
            Dns01Phase::CleanUp { outcome, tried } => {
                if tried < self.records.len() {
                    Dns01Action::DeleteRecord(self.records[tried].clone())
                } else {
                    Dns01Action::Finish(outcome)
                }
            },
        }
    }

    /// Take in an authorization.
    fn authorized(&mut self, status: AuthorizationStatus, offer: Dns01Offer)
        requires
            old(self)@.phase is NextAuthorization,
        ensures
            final(self)@ == old(self)@.authorized(status, offer),
            final(self)@.wf(),
    {
        match status {
            AuthorizationStatus::Pending => match offer {
                Dns01Offer::Missing => self.fail(
                    ChallengeFailure::ChallengeNotFound(ChallengeKind::Dns01),
                ),
                Dns01Offer::ForOther => self.fail(ChallengeFailure::NotADnsName),
                Dns01Offer::ForName(name) => {
                    self.name = name;
                    self.phase = Dns01Phase::FindNameServers;
                },
            },
            AuthorizationStatus::Valid => {},
            _ => self.fail(ChallengeFailure::UnsupportedAuthorization(status)),
        }
    }

    /// Take in the answer to the request to create a record.
    fn record_created(&mut self, success: bool, id: Option<String>)
        ensures
            final(self)@ == old(self)@.record_created(success, id),
            final(self)@.wf(),
    {
        if !success {
            self.fail(ChallengeFailure::RecordRefused);
            return;
        }
        if let Some(id) = id {
            self.records.push(id);
            proof {
                assert(dns::strings(self.records@) =~= dns::strings(old(self).records@).push(id@));
            }
        }
        self.phase = Dns01Phase::LookUp { looks: 0 };
    }

    /// Settle on a failure.
    fn fail(&mut self, failure: ChallengeFailure)
        ensures
            final(self)@ == old(self)@.failed(failure),
            final(self)@.wf(),
    {
        self.phase = Dns01Phase::CleanUp { outcome: Err(failure), tried: 0 };
    }

    /// Take in what came of the last action.
    pub fn step(&mut self, event: Dns01Event)
        requires
            old(self)@.wf(),
        ensures
            final(self)@ == old(self)@.next(event),
            final(self)@.wf(),
    {
        match (self.phase, event) {
            (Dns01Phase::CleanUp { outcome, tried }, _) => {
                // A record that cannot be deleted does not change the outcome.
                if tried < self.records.len() {
                    self.phase = Dns01Phase::CleanUp { outcome, tried: tried + 1 };
                }
            },
            (Dns01Phase::NextAuthorization, Dns01Event::Authorization { status, offer }) => {
                self.authorized(status, offer);
            },
            (Dns01Phase::NextAuthorization, Dns01Event::NoMoreAuthorizations) => {
                self.phase = Dns01Phase::PollOrder;
            },
            (Dns01Phase::FindNameServers, Dns01Event::NameServersFound) => {
                self.phase = Dns01Phase::GetKeyAuthorization;
            },
            (Dns01Phase::GetKeyAuthorization, Dns01Event::KeyAuthorization(value)) => {
                self.value = value;
                self.phase = Dns01Phase::CreateRecord;
            },
            (Dns01Phase::CreateRecord, Dns01Event::RecordCreated { success, id }) => {
                self.record_created(success, id);
            },
            (Dns01Phase::LookUp { looks }, Dns01Event::Answers(answers)) => {
                if text::any_contains(&answers, self.value.as_str()) {
                    self.phase = Dns01Phase::SetReady;
                } else {
                    self.phase = Dns01Phase::Wait { looks: looks + 1 };
                }
            },
            (Dns01Phase::LookUp { looks }, Dns01Event::LookupFailed) => {
                self.phase = Dns01Phase::Wait { looks: looks + 1 };
            },
            (Dns01Phase::Wait { looks }, Dns01Event::Waited) => {
                if looks < DNS_PROPAGATION_RETRY_COUNT {
                    self.phase = Dns01Phase::LookUp { looks };
                } else {
                    self.fail(ChallengeFailure::NotPropagated);
                }
            },
            (Dns01Phase::SetReady, Dns01Event::ChallengeReady) => {
                self.phase = Dns01Phase::NextAuthorization;
            },
            (Dns01Phase::PollOrder, Dns01Event::OrderPolled(status)) => {
                if status == OrderStatus::Ready {
                    self.phase = Dns01Phase::CleanUp { outcome: Ok(()), tried: 0 };
                } else {
                    self.fail(ChallengeFailure::UnexpectedOrder(ChallengeKind::Dns01, status));
                }
            },
            _ => self.fail(ChallengeFailure::Outside),
        }
    }
}

/// The state after `events`.
pub open spec fn after(events: Seq<Dns01Event>) -> Dns01State
    decreases events.len(),
{
    if events.len() == 0 {
        Dns01State::start()
    } else {
        after(events.drop_last()).next(events.last())
    }
}

/// The ids of the records that were created in the course of `events`.
pub open spec fn created(events: Seq<Dns01Event>) -> Seq<Seq<char>>
    decreases events.len(),
{
    if events.len() == 0 {
        Seq::empty()
    } else {
        let before = events.drop_last();
        match events.last() {
            Dns01Event::RecordCreated { success: true, id: Some(id) } if after(
                before,
            ).phase is CreateRecord => created(before).push(id@),
            _ => created(before),
        }
    }
}

/// The ids of the records whose deletion was asked for and tried in the course of
/// `events`.
pub open spec fn deleted(events: Seq<Dns01Event>) -> Seq<Seq<char>>
    decreases events.len(),
{
    if events.len() == 0 {
        Seq::empty()
    } else {
        let before = events.drop_last();
        match after(before).action() {
            Dns01ActionView::DeleteRecord(id) => deleted(before).push(id),
            _ => deleted(before),
        }
    }
}

/// No record is deleted while the outcome is open. From then on they are deleted one
/// after the other, and when it is over the records that were deleted are those that
/// were created, whatever came of the order.
pub proof fn created_records_are_deleted_last(events: Seq<Dns01Event>)
    requires
        created(events).len() <= usize::MAX,
    ensures
        after(events).wf(),
        after(events).records == created(events),
        !(after(events).phase is CleanUp) ==> deleted(events) == Seq::<Seq<char>>::empty(),
        after(events).phase matches Dns01Phase::CleanUp { tried, .. } ==> deleted(events)
            == created(events).take(tried as int),
        after(events).action() is Finish ==> deleted(events) == created(events),
    decreases events.len(),
{
    if events.len() > 0 {
        let before = events.drop_last();
        created_records_are_deleted_last(before);
        if let Dns01Phase::CleanUp { tried, .. } = after(before).phase {
            if tried < after(before).records.len() {
                assert(created(events).take(tried + 1) =~= created(events).take(tried as int).push(
                    created(events)[tried as int],
                ));
            }
        }
    }
    assert(created(events).take(0) =~= Seq::empty());
    assert(created(events).take(created(events).len() as int) =~= created(events));
}

/// The state that `events` lead to from `state`.
pub open spec fn ran(state: Dns01State, events: Seq<Dns01Event>) -> Dns01State
    decreases events.len(),
{
    if events.len() == 0 {
        state
    } else {
        ran(state, events.drop_last()).next(events.last())
    }
}

/// Once the outcome is certain nothing changes it: after one step for each record it
/// is over, and remains so.
pub proof fn clean_up_keeps_the_outcome(
    state: Dns01State,
    outcome: Result<(), ChallengeFailure>,
    events: Seq<Dns01Event>,
)
    requires
        state == state.ended(outcome),
        state.records.len() <= usize::MAX,
    ensures
        ran(state, events).phase == (Dns01Phase::CleanUp {
            outcome,
            tried: (if events.len() < state.records.len() {
                events.len()
            } else {
                state.records.len()
            }) as usize,
        }),
        ran(state, events).records == state.records,
        events.len() >= state.records.len() ==> ran(state, events).action()
            == Dns01ActionView::Finish(outcome),
    decreases events.len(),
{
    if events.len() > 0 {
        clean_up_keeps_the_outcome(state, outcome, events.drop_last());
    }
}

/// It ends well only where the order was polled and found ready.
pub proof fn success_needs_a_ready_order(events: Seq<Dns01Event>)
    requires
        after(events).phase matches Dns01Phase::CleanUp { outcome: Ok(_), .. },
    ensures
        exists|i: int|
            0 <= i < events.len() && #[trigger] events[i] == Dns01Event::OrderPolled(
                OrderStatus::Ready,
            ) && after(events.take(i)).phase is PollOrder,
    decreases events.len(),
{
    if events.len() > 0 {
        let before = events.drop_last();
        if after(before).phase is CleanUp {
            success_needs_a_ready_order(before);
            let i = choose|i: int|
                0 <= i < before.len() && #[trigger] before[i] == Dns01Event::OrderPolled(
                    OrderStatus::Ready,
                ) && after(before.take(i)).phase is PollOrder;
            assert(events[i] == before[i]);
            assert(before.take(i) =~= events.take(i));
        } else {
            let i = events.len() - 1;
            assert(events[i] == events.last());
            assert(events.take(i) =~= before);
        }
    }
}

/// A challenge is declared ready only where a look has shown its value.
pub proof fn readiness_needs_propagation(state: Dns01State, event: Dns01Event)
    requires
        state.next(event).phase is SetReady,
    ensures
        state.phase is LookUp,
        event matches Dns01Event::Answers(answers) && text::some_contains(answers@, state.value),
{
}

/// Whether `event` shows that the record with `value` is not served yet.
pub open spec fn in_vain(event: Dns01Event, value: Seq<char>) -> bool {
    match event {
        Dns01Event::Answers(answers) => !text::some_contains(answers@, value),
        Dns01Event::LookupFailed => true,
        _ => false,
    }
}

/// Whether `events` are looks in vain with a wait after each.
pub open spec fn looks_in_vain(events: Seq<Dns01Event>, value: Seq<char>) -> bool {
    forall|i: int|
        0 <= i < events.len() ==> if i % 2 == 0 {
            in_vain(#[trigger] events[i], value)
        } else {
            events[i] is Waited
        }
}

/// A record is looked for time and again, with a wait after each look in vain, and
/// the challenge fails after the last of [`DNS_PROPAGATION_RETRY_COUNT`] looks.
pub proof fn propagation_is_awaited(state: Dns01State, events: Seq<Dns01Event>)
    requires
        state.phase == (Dns01Phase::LookUp { looks: 0 }),
        looks_in_vain(events, state.value),
        events.len() <= 2 * DNS_PROPAGATION_RETRY_COUNT,
    ensures
        ran(state, events) == if events.len() == 2 * DNS_PROPAGATION_RETRY_COUNT {
            state.failed(ChallengeFailure::NotPropagated)
        } else if events.len() % 2 == 0 {
            state.to(Dns01Phase::LookUp { looks: (events.len() / 2) as usize })
        } else {
            state.to(Dns01Phase::Wait { looks: (events.len() / 2 + 1) as usize })
        },
    decreases events.len(),
{
    if events.len() > 0 {
        let before = events.drop_last();
        assert forall|i: int| 0 <= i < before.len() implies if i % 2 == 0 {
            in_vain(#[trigger] before[i], state.value)
        } else {
            before[i] is Waited
        } by {
            assert(before[i] == events[i]);
        }
        propagation_is_awaited(state, before);
        let last = events[events.len() - 1];
        assert(last == events.last());
    }
}

/// What the pending authorizations that came in the course of `events` offer, in order.
pub open spec fn pending_offers(events: Seq<Dns01Event>) -> Seq<Dns01Offer>
    decreases events.len(),
{
    if events.len() == 0 {
        Seq::empty()
    } else {
        let before = events.drop_last();
        match events.last() {
            Dns01Event::Authorization { status: AuthorizationStatus::Pending, offer } if after(
                before,
            ).phase is NextAuthorization => pending_offers(before).push(offer),
            _ => pending_offers(before),
        }
    }
}

/// The names whose challenges were declared ready in the course of `events`, in order.
pub open spec fn readied(events: Seq<Dns01Event>) -> Seq<Seq<char>>
    decreases events.len(),
{
    if events.len() == 0 {
        Seq::empty()
    } else {
        let before = events.drop_last();
        if after(before).phase is SetReady && events.last() is ChallengeReady {
            readied(before).push(after(before).name)
        } else {
            readied(before)
        }
    }
}

/// Whether `offers` are challenges for exactly these names.
pub open spec fn are_for(offers: Seq<Dns01Offer>, names: Seq<Seq<char>>) -> bool {
    &&& offers.len() == names.len()
    &&& forall|i: int|
        0 <= i < offers.len() ==> (#[trigger] offers[i] matches Dns01Offer::ForName(name) && name@
            == names[i])
}

/// Where it ends well, a challenge was declared ready for every pending authorization, in
/// the order in which they came, and for nothing else.
pub proof fn success_answers_every_authorization(events: Seq<Dns01Event>)
    requires
        after(events).phase matches Dns01Phase::CleanUp { outcome: Ok(_), .. },
    ensures
        are_for(pending_offers(events), readied(events)),
{
    lemma_answered(events);
}

/// The challenges that were declared ready, with the current one, are those that came.
proof fn lemma_answered(events: Seq<Dns01Event>)
    ensures
        ({
            let now = after(events);
            match now.phase {
                Dns01Phase::NextAuthorization => are_for(pending_offers(events), readied(events)),
                Dns01Phase::PollOrder => are_for(pending_offers(events), readied(events)),
                Dns01Phase::CleanUp { outcome, .. } => outcome is Ok ==> are_for(
                    pending_offers(events),
                    readied(events),
                ),
                _ => are_for(pending_offers(events), readied(events).push(now.name)),
            }
        }),
    decreases events.len(),
{
    if events.len() > 0 {
        let before = events.drop_last();
        lemma_answered(before);
    }
}

} // verus!
