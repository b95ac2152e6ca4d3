//! Answering HTTP-01 challenges: a temporary server that hands out the content
//! registered for each challenge token, and the order in which tokens are registered
//! and challenges declared ready.
use crate::acme::challenge::{ChallengeFailure, ChallengeKind};
use crate::acme::{AuthorizationStatus, OrderStatus};
use vstd::hash_map::StringHashMap;
use vstd::prelude::*;
use vstd::string::*;

verus! {

/// The status of a response with content.
pub const HTTP_OK: u16 = 200;

/// The status of a response to a request for something unknown.
pub const HTTP_NOT_FOUND: u16 = 404;

/// The content to serve for each HTTP-01 challenge token.
pub struct ChallengeTokens {
    map: StringHashMap<String>,
}

impl View for ChallengeTokens {
    type V = Map<Seq<char>, Seq<char>>;

    closed spec fn view(&self) -> Map<Seq<char>, Seq<char>> {
        self.map@.map_values(|content: String| content@)
    }
}

/// The status and the body of the response to a request for `token`.
pub open spec fn response(tokens: Map<Seq<char>, Seq<char>>, token: Seq<char>) -> (u16, Seq<char>) {
    if tokens.contains_key(token) {
        (HTTP_OK, tokens[token])
    } else {
        (HTTP_NOT_FOUND, Seq::empty())
    }
}

/// `tokens` with `content` to be served for `token`.
pub open spec fn with_token(
    tokens: Map<Seq<char>, Seq<char>>,
    token: Seq<char>,
    content: Seq<char>,
) -> Map<Seq<char>, Seq<char>> {
    tokens.insert(token, content)
}

impl ChallengeTokens {
    /// No tokens.
    pub fn new() -> (r: ChallengeTokens)
        ensures
            r@ == Map::<Seq<char>, Seq<char>>::empty(),
    {
        let r = ChallengeTokens { map: StringHashMap::new() };
        proof {
            assert(r@ =~= Map::<Seq<char>, Seq<char>>::empty());
        }
        r
    }

    /// Serve `content` for `token` from here on.
    pub fn insert(&mut self, token: String, content: String)
        ensures
            final(self)@ == with_token(old(self)@, token@, content@),
    {
        self.map.insert(token, content);
        proof {
            assert(self@ =~= old(self)@.insert(token@, content@));
        }
    }

    /// The status and the body of the response to a request for `token`.
    pub fn respond(&self, token: &str) -> (r: (u16, String))
        ensures
            (r.0, r.1@) == response(self@, token@),
    {
        match self.map.get(token) {
            Some(content) => (HTTP_OK, content.clone()),
            None => {
                let body = String::new();
                proof {
                    assert(body@ =~= Seq::<char>::empty());
                }
                (HTTP_NOT_FOUND, body)
            },
        }
    }
}

/// A registered token is answered with its content, and the answers for all other
/// tokens stay as they were.
pub proof fn registered_token_is_served(
    tokens: Map<Seq<char>, Seq<char>>,
    token: Seq<char>,
    content: Seq<char>,
    other: Seq<char>,
)
    ensures
        response(with_token(tokens, token, content), token) == (HTTP_OK, content),
        other != token ==> response(with_token(tokens, token, content), other) == response(
            tokens,
            other,
        ),
{
}

/// What came of the last action of a [`Http01`].
#[derive(Debug, PartialEq, Eq)]
pub enum Http01Event {
    /// The server is listening.
    ServerStarted,
    /// The order has another authorization, which offers an HTTP-01 challenge or not.
    Authorization { status: AuthorizationStatus, offered: bool },
    /// The order has no further authorization.
    NoMoreAuthorizations,
    /// The token of the challenge, and the content to serve for it.
    KeyAuthorization { token: String, content: String },
    /// The content is served from here on.
    Registered,
    /// The challenge was declared ready.
    ChallengeReady,
    /// The order has this status.
    OrderPolled(OrderStatus),
    /// The server has stopped.
    ServerStopped,
    /// The action failed.
    Failed,
}

/// What a [`Http01`] asks for.
#[derive(Debug, PartialEq, Eq)]
pub enum Http01Action {
    /// Start the server.
    StartServer,
    /// Fetch the next authorization of the order.
    NextAuthorization,
    /// Get the token of the challenge and the content to serve for it.
    GetKeyAuthorization,
    /// Serve this content for this token.
    Register { token: String, content: String },
    /// Declare the challenge ready.
    SetReady,
    /// Poll the order until it is ready or invalid.
    PollOrder,
    /// Stop the server.
    StopServer,
    /// It is over.
    Finish(Result<(), ChallengeFailure>),
}

/// How far the answering of HTTP-01 challenges has come.
#[derive(Debug, PartialEq, Eq)]
pub enum Http01 {
    /// The server is being started.
    StartServer,
    /// The next authorization is awaited.
    NextAuthorization,
    /// The token and the content of the challenge are awaited.
    GetKeyAuthorization,
    /// The content is being registered.
    Register { token: String, content: String },
    /// The challenge is being declared ready.
    SetReady,
    /// The order is being polled.
    PollOrder,
    /// The outcome is certain, and the server is being stopped.
    StopServer(Result<(), ChallengeFailure>),
    /// It is over.
    Finished(Result<(), ChallengeFailure>),
}

impl Http01 {
    /// The state with this failure as its outcome, while the server runs.
    pub open spec fn failed(failure: ChallengeFailure) -> Http01 {
        Http01::StopServer(Err(failure))
    }

    /// The state after an authorization.
    pub open spec fn authorized(status: AuthorizationStatus, offered: bool) -> Http01 {
        match status {
            AuthorizationStatus::Pending => if offered {
                Http01::GetKeyAuthorization
            } else {
                Http01::failed(ChallengeFailure::ChallengeNotFound(ChallengeKind::Http01))
            },
            AuthorizationStatus::Valid => Http01::NextAuthorization,
            _ => Http01::failed(ChallengeFailure::UnsupportedAuthorization(status)),
        }
    }

    /// The state after `event`. An event that the state does not wait for counts as a
    /// failure of its action.
    pub open spec fn next(self, event: Http01Event) -> Http01 {
        match (self, event) {
            (Http01::Finished(outcome), _) => Http01::Finished(outcome),
            (Http01::StopServer(outcome), _) => Http01::Finished(outcome),
            (Http01::StartServer, Http01Event::ServerStarted) => Http01::NextAuthorization,
            (Http01::StartServer, _) => Http01::Finished(Err(ChallengeFailure::Outside)),
            (Http01::NextAuthorization, Http01Event::Authorization { status, offered }) => {
                Http01::authorized(status, offered)
            },
            (Http01::NextAuthorization, Http01Event::NoMoreAuthorizations) => Http01::PollOrder,
            (Http01::GetKeyAuthorization, Http01Event::KeyAuthorization { token, content }) => {
                Http01::Register { token, content }
            },
            (Http01::Register { .. }, Http01Event::Registered) => Http01::SetReady,
            (Http01::SetReady, Http01Event::ChallengeReady) => Http01::NextAuthorization,
            (Http01::PollOrder, Http01Event::OrderPolled(status)) => {
                if status == OrderStatus::Ready {
                    Http01::StopServer(Ok(()))
                } else {
                    Http01::failed(ChallengeFailure::UnexpectedOrder(ChallengeKind::Http01, status))
                }
            },
            _ => Http01::failed(ChallengeFailure::Outside),
        }
    }

    /// Whether `action` is what this state asks for.
    pub open spec fn asks(self, action: Http01Action) -> bool {
        match self {
            Http01::StartServer => action is StartServer,
            Http01::NextAuthorization => action is NextAuthorization,
            Http01::GetKeyAuthorization => action is GetKeyAuthorization,
            Http01::Register { token, content } => action == (Http01Action::Register {
                token,
                content,
            }),
            Http01::SetReady => action is SetReady,
            Http01::PollOrder => action is PollOrder,
            Http01::StopServer(_) => action is StopServer,
            Http01::Finished(outcome) => action == Http01Action::Finish(outcome),
        }
    }

    /// Start to answer the challenges of an order.
    pub fn new() -> (r: Http01)
        ensures
            r is StartServer,
    {
        Http01::StartServer
    }

    /// The next thing to do.
    pub fn action(&self) -> (r: Http01Action)
        ensures
            self.asks(r),
    {
        match self {
            Http01::StartServer => Http01Action::StartServer,
            Http01::NextAuthorization => Http01Action::NextAuthorization,
            Http01::GetKeyAuthorization => Http01Action::GetKeyAuthorization,
            Http01::Register { token, content } => Http01Action::Register {
                token: token.clone(),
                content: content.clone(),
            },
            Http01::SetReady => Http01Action::SetReady,
            Http01::PollOrder => Http01Action::PollOrder,
            Http01::StopServer(_) => Http01Action::StopServer,
            Http01::Finished(outcome) => Http01Action::Finish(*outcome),
        }
    }

    /// The state after `event`.
    pub fn step(self, event: Http01Event) -> (r: Http01)
        ensures
            r == self.next(event),
    {
        match (self, event) {
            (Http01::Finished(outcome), _) => Http01::Finished(outcome),
            // The server is stopped regardless of the outcome.
            (Http01::StopServer(outcome), _) => Http01::Finished(outcome),
            (Http01::StartServer, Http01Event::ServerStarted) => Http01::NextAuthorization,
            (Http01::StartServer, _) => Http01::Finished(Err(ChallengeFailure::Outside)),
            (Http01::NextAuthorization, Http01Event::Authorization { status, offered }) => {
                match status {
                    AuthorizationStatus::Pending => if offered {
                        Http01::GetKeyAuthorization
                    } else {
                        Http01::StopServer(
                            Err(ChallengeFailure::ChallengeNotFound(ChallengeKind::Http01)),
                        )
                    },
                    AuthorizationStatus::Valid => Http01::NextAuthorization,
                    _ => Http01::StopServer(Err(ChallengeFailure::UnsupportedAuthorization(status))),
                }
            },
            (Http01::NextAuthorization, Http01Event::NoMoreAuthorizations) => Http01::PollOrder,
            (Http01::GetKeyAuthorization, Http01Event::KeyAuthorization { token, content }) => {
                Http01::Register { token, content }
            },
            (Http01::Register { .. }, Http01Event::Registered) => Http01::SetReady,
            (Http01::SetReady, Http01Event::ChallengeReady) => Http01::NextAuthorization,
            (Http01::PollOrder, Http01Event::OrderPolled(status)) => {
                if status == OrderStatus::Ready {
                    Http01::StopServer(Ok(()))
                } else {
                    Http01::StopServer(
                        Err(ChallengeFailure::UnexpectedOrder(ChallengeKind::Http01, status)),
                    )
                }
            },
            _ => Http01::StopServer(Err(ChallengeFailure::Outside)),
        }
    }
}

/// The state after `events`.
pub open spec fn after(events: Seq<Http01Event>) -> Http01
    decreases events.len(),
{
    if events.len() == 0 {
        Http01::StartServer
    } else {
        after(events.drop_last()).next(events.last())
    }
}

/// Whether the server was started in the course of `events`.
pub open spec fn started(events: Seq<Http01Event>) -> bool {
    events.len() > 0 && events[0] is ServerStarted
}

/// How often the server was asked to stop, and was given the time to, in the course of
/// `events`.
pub open spec fn stops(events: Seq<Http01Event>) -> nat
    decreases events.len(),
{
    if events.len() == 0 {
        0
    } else {
        let before = stops(events.drop_last());
        if after(events.drop_last()) is StopServer {
            before + 1
        } else {
            before
        }
    }
}

/// A server that was started is stopped once before it is over, whatever came of the
/// order, and not earlier. One that was not started is not stopped.
pub proof fn started_server_is_stopped_once(events: Seq<Http01Event>)
    ensures
        !(after(events) is Finished) ==> stops(events) == 0,
        after(events) is Finished ==> stops(events) == if started(events) {
            1nat
        } else {
            0nat
        },
        after(events) is StartServer <==> events.len() == 0,
        events.len() > 0 && !started(events) ==> after(events) is Finished,
    decreases events.len(),
{
    if events.len() > 0 {
        let before = events.drop_last();
        started_server_is_stopped_once(before);
        assert(before.len() > 0 ==> before[0] == events[0]);
        assert(events.len() == 1 ==> events.last() == events[0]);
    }
}

/// It ends well only where the order was polled and found ready.
pub proof fn success_needs_a_ready_order(events: Seq<Http01Event>)
    requires
        after(events) == Http01::StopServer(Ok(())) || after(events) == Http01::Finished(Ok(())),
    ensures
        exists|i: int|
            0 <= i < events.len() && #[trigger] events[i] == Http01Event::OrderPolled(
                OrderStatus::Ready,
            ) && after(events.take(i)) is PollOrder,
    decreases events.len(),
{
    if events.len() > 0 {
        let before = events.drop_last();
        if after(before) is StopServer || after(before) is Finished {
            success_needs_a_ready_order(before);
            let i = choose|i: int|
                0 <= i < before.len() && #[trigger] before[i] == Http01Event::OrderPolled(
                    OrderStatus::Ready,
                ) && after(before.take(i)) is PollOrder;
            assert(events[i] == before[i]);
            assert(before.take(i) =~= events.take(i));
        } else {
            let i = events.len() - 1;
            assert(events[i] == events.last());
            assert(events.take(i) =~= before);
        }
    }
}

/// A challenge is declared ready only once its content is served.
pub proof fn readiness_needs_registration(state: Http01, event: Http01Event)
    requires
        state.next(event) is SetReady,
    ensures
        state is Register,
        event is Registered,
{
}

/// Whether each pending authorization that came in the course of `events` offers a
/// challenge, in order.
pub open spec fn pending_offers(events: Seq<Http01Event>) -> Seq<bool>
    decreases events.len(),
{
    if events.len() == 0 {
        Seq::empty()
    } else {
        let before = events.drop_last();
        match events.last() {
            Http01Event::Authorization { status: AuthorizationStatus::Pending, offered } if after(
                before,
            ) is NextAuthorization => pending_offers(before).push(offered),
            _ => pending_offers(before),
        }
    }
}

/// The tokens and contents that were registered in the course of `events`, in order.
pub open spec fn registered(events: Seq<Http01Event>) -> Seq<(Seq<char>, Seq<char>)>
    decreases events.len(),
{
    if events.len() == 0 {
        Seq::empty()
    } else {
        let before = events.drop_last();
        match (after(before), events.last()) {
            (Http01::Register { token, content }, Http01Event::Registered) => registered(
                before,
            ).push((token@, content@)),
            _ => registered(before),
        }
    }
}

/// How many challenges were declared ready in the course of `events`.
pub open spec fn readied(events: Seq<Http01Event>) -> nat
    decreases events.len(),
{
    if events.len() == 0 {
        0
    } else {
        let before = events.drop_last();
        if after(before) is SetReady && events.last() is ChallengeReady {
            readied(before) + 1
        } else {
            readied(before)
        }
    }
}

/// Where it ends well, every pending authorization offered a challenge, and for each of
/// them content was registered and the challenge was declared ready.
pub proof fn success_answers_every_authorization(events: Seq<Http01Event>)
    requires
        after(events) == Http01::StopServer(Ok(())) || after(events) == Http01::Finished(Ok(())),
    ensures
        forall|i: int| 0 <= i < pending_offers(events).len() ==> #[trigger] pending_offers(events)[i],
        registered(events).len() == pending_offers(events).len(),
        readied(events) == pending_offers(events).len(),
{
    lemma_answered(events);
}

/// The challenges that were declared ready, with the current one, are those that came.
proof fn lemma_answered(events: Seq<Http01Event>)
    ensures
        ({
            let offers = pending_offers(events);
            let all = forall|i: int| 0 <= i < offers.len() ==> #[trigger] offers[i];
            let done = all && registered(events).len() == offers.len() && readied(events)
                == offers.len();
            match after(events) {
                Http01::StartServer => done,
                Http01::NextAuthorization => done,
                Http01::PollOrder => done,
                Http01::StopServer(outcome) => outcome is Ok ==> done,
                Http01::Finished(outcome) => outcome is Ok ==> done,
                Http01::SetReady => all && registered(events).len() == offers.len() && readied(
                    events,
                ) + 1 == offers.len(),
                _ => all && registered(events).len() + 1 == offers.len() && readied(events) + 1
                    == offers.len(),
            }
        }),
    decreases events.len(),
{
    if events.len() > 0 {
        lemma_answered(events.drop_last());
    }
}

} // verus!
