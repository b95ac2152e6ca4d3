//! What the answering of challenges asks for, seen from the authorizations.
use crate::acme::challenge;
use crate::acme::challenge::{ChallengeFailure, ChallengeKind, ChallengeRun};
use crate::acme::dns01;
use crate::acme::dns01::{Dns01Action, Dns01ActionView, Dns01Event, Dns01Offer, Dns01Phase, Dns01State};
use crate::acme::http01;
use crate::acme::http01::{Http01, Http01Action, Http01Event};
use crate::acme::laws::issuing;
use crate::acme::{AcmeChallengeType, AcmeError, AuthorizationStatus, OrderStatus};
use crate::text;
use vstd::prelude::*;
use vstd::string::*;

verus! {

/// Whether `record_name` is the name under which the CA looks for the answer to a challenge for
/// `name`: `_acme-challenge.` and the name, character for character.
pub open spec fn is_challenge_name(record_name: Seq<char>, name: Seq<char>) -> bool {
    &&& record_name.len() == 16 + name.len()
    &&& record_name.take(16) == seq![
        '_',
        'a',
        'c',
        'm',
        'e',
        '-',
        'c',
        'h',
        'a',
        'l',
        'l',
        'e',
        'n',
        'g',
        'e',
        '.',
    ]
    &&& forall|i: int| 0 <= i < name.len() ==> record_name[16 + i] == #[trigger] name[i]
}

proof fn lemma_challenge_name(name: Seq<char>)
    ensures
        is_challenge_name(dns01::challenge_name(name), name),
{
    reveal_strlit("_acme-challenge.");
    let whole = dns01::challenge_name(name);
    assert(whole.take(16) =~= seq![
        '_',
        'a',
        'c',
        'm',
        'e',
        '-',
        'c',
        'h',
        'a',
        'l',
        'l',
        'e',
        'n',
        'g',
        'e',
        '.',
    ]);
}

/// Records for different names have different names.
pub proof fn challenge_names_are_told_apart(record_name: Seq<char>, a: Seq<char>, b: Seq<char>)
    requires
        is_challenge_name(record_name, a),
        is_challenge_name(record_name, b),
    ensures
        a == b,
{
    assert(a.len() == b.len());
    assert forall|i: int| 0 <= i < a.len() implies a[i] == b[i] by {
        assert(record_name[16 + i] == a[i]);
        assert(record_name[16 + i] == b[i]);
    }
    assert(a =~= b);
}

/// Whether the last of the pending authorizations in `events` offers a challenge for `name`.
pub open spec fn is_current(events: Seq<Dns01Event>, name: Seq<char>) -> bool {
    exists|i: int|
        0 <= i < events.len() && (
        #[trigger] events[i] matches Dns01Event::Authorization {
            status: AuthorizationStatus::Pending,
            offer: Dns01Offer::ForName(n),
        } && n@ == name) && no_authorization_since(events, i)
}

/// Whether no authorization comes after the event with number `i`.
pub open spec fn no_authorization_since(events: Seq<Dns01Event>, i: int) -> bool {
    forall|j: int| i < j < events.len() ==> !((#[trigger] events[j]) is Authorization)
}

/// Whether `value` is the last one in `events` that a record has to hold.
pub open spec fn is_current_value(events: Seq<Dns01Event>, value: Seq<char>) -> bool {
    exists|i: int|
        0 <= i < events.len() && (#[trigger] events[i] matches Dns01Event::KeyAuthorization(v) && v@
            == value) && no_value_since(events, i)
}

/// Whether no value comes after the event with number `i`.
pub open spec fn no_value_since(events: Seq<Dns01Event>, i: int) -> bool {
    forall|j: int| i < j < events.len() ==> !((#[trigger] events[j]) is KeyAuthorization)
}

/// Whether the record with this id was created in the course of `events`.
pub open spec fn was_created(events: Seq<Dns01Event>, id: Seq<char>) -> bool {
    exists|i: int|
        0 <= i < events.len() && (
        #[trigger] events[i] matches Dns01Event::RecordCreated { success: true, id: Some(created) }
            && created@ == id)
}

proof fn lemma_current(events: Seq<Dns01Event>)
    ensures
        ({
            let now = dns01::after(events);
            let named = match now.phase {
                Dns01Phase::NextAuthorization => false,
                Dns01Phase::PollOrder => false,
                Dns01Phase::CleanUp { .. } => false,
                _ => true,
            };
            let valued = named && !(now.phase is FindNameServers) && !(
            now.phase is GetKeyAuthorization);
            &&& named ==> is_current(events, now.name)
            &&& valued ==> is_current_value(events, now.value)
        }),
    decreases events.len(),
{
    if events.len() > 0 {
        let before = events.drop_last();
        lemma_current(before);
        let was = dns01::after(before);
        let now = dns01::after(events);
        let last = events.len() - 1;
        assert(events[last] == events.last());
        if !(events.last() is Authorization) && is_current(before, was.name) {
            let i = choose|i: int|
                0 <= i < before.len() && (
                #[trigger] before[i] matches Dns01Event::Authorization {
                    status: AuthorizationStatus::Pending,
                    offer: Dns01Offer::ForName(n),
                } && n@ == was.name) && no_authorization_since(before, i);
            assert(events[i] == before[i]);
            assert forall|j: int| i < j < events.len() implies !((
            #[trigger] events[j]) is Authorization) by {
                if j < last {
                    assert(events[j] == before[j]);
                }
            }
            assert(no_authorization_since(events, i));
            assert(is_current(events, was.name));
        }
        if !(events.last() is KeyAuthorization) && is_current_value(before, was.value) {
            let i = choose|i: int|
                0 <= i < before.len() && (
                #[trigger] before[i] matches Dns01Event::KeyAuthorization(v) && v@ == was.value)
                    && no_value_since(before, i);
            assert(events[i] == before[i]);
            assert forall|j: int| i < j < events.len() implies !((
            #[trigger] events[j]) is KeyAuthorization) by {
                if j < last {
                    assert(events[j] == before[j]);
                }
            }
            assert(no_value_since(events, i));
            assert(is_current_value(events, was.value));
        }
        assert(no_authorization_since(events, last));
        assert(no_value_since(events, last));
    }
}

proof fn lemma_created(events: Seq<Dns01Event>, k: int)
    requires
        0 <= k < dns01::created(events).len(),
    ensures
        was_created(events, dns01::created(events)[k]),
    decreases events.len(),
{
    let before = events.drop_last();
    let last = events.len() - 1;
    assert(events[last] == events.last());
    if k < dns01::created(before).len() {
        lemma_created(before, k);
        let id = dns01::created(before)[k];
        let i = choose|i: int|
            0 <= i < before.len() && (
            #[trigger] before[i] matches Dns01Event::RecordCreated {
                success: true,
                id: Some(created),
            } && created@ == id);
        assert(events[i] == before[i]);
    }
}

/// Whatever has come back so far, what is asked for is about the authorization that came last:
/// the name servers of its name, a TXT record under `_acme-challenge.` and its name that holds
/// the last value in quotation marks, for two minutes and without a proxy, and looks for just
/// that record, by its fully qualified name. Only records that were created are deleted.
pub proof fn dns01_is_about_the_authorization(events: Seq<Dns01Event>)
    requires
        dns01::created(events).len() <= usize::MAX,
    ensures
        match dns01::after(events).action() {
            Dns01ActionView::FindNameServers(name) => is_current(events, name),
            Dns01ActionView::CreateRecord(record) => {
                &&& record.record_type is Txt
                &&& record.ttl == 120
                &&& !record.proxied
                &&& record.content.len() >= 2
                &&& record.content[0] == '"'
                &&& record.content.last() == '"'
                &&& is_current_value(events, record.content.subrange(1, record.content.len() - 1))
                &&& record.name.len() >= 16
                &&& is_challenge_name(record.name, record.name.skip(16))
                &&& is_current(events, record.name.skip(16))
            },
            Dns01ActionView::LookUpTxt(name) => {
                let record_name = name.take(name.len() - 1);
                &&& name.len() >= 17
                &&& name.last() == '.'
                &&& is_challenge_name(record_name, record_name.skip(16))
                &&& is_current(events, record_name.skip(16))
            },
            Dns01ActionView::Wait(seconds) => seconds == 6,
            Dns01ActionView::DeleteRecord(id) => was_created(events, id),
            _ => true,
        },
{
    let now = dns01::after(events);
    lemma_current(events);
    lemma_challenge_name(now.name);
    dns01::created_records_are_deleted_last(events);
    reveal_strlit("_acme-challenge.");
    reveal_strlit(".");
    reveal_strlit("\"");
    let record_name = dns01::challenge_name(now.name);
    assert(record_name.skip(16) =~= now.name);
    let content = "\""@ + now.value + "\""@;
    assert(content.subrange(1, content.len() - 1) =~= now.value);
    let looked = record_name + "."@;
    assert(looked.take(looked.len() - 1) =~= record_name);
    if let Dns01Phase::CleanUp { tried, .. } = now.phase {
        if tried < now.records.len() {
            lemma_created(events, tried as int);
        }
    }
}

/// For every DNS name and every value, the record that is asked for is named
/// `_acme-challenge.` and the name, and holds the value between quotation marks; the name that
/// is looked up is that of the record and one dot.
pub proof fn record_answers_the_challenge(state: Dns01State)
    ensures
        state.phase is CreateRecord ==> (state.action() matches Dns01ActionView::CreateRecord(record)
            && is_challenge_name(record.name, state.name) && record.content == seq!['"']
            + state.value + seq!['"'] && record.record_type is Txt && record.ttl == 120
            && !record.proxied),
        state.phase is LookUp ==> (state.action() matches Dns01ActionView::LookUpTxt(name)
            && name.len() == 17 + state.name.len() && name.last() == '.' && is_challenge_name(
            name.take(name.len() - 1),
            state.name,
        )),
        state.phase is FindNameServers ==> state.action() == Dns01ActionView::FindNameServers(
            state.name,
        ),
{
    lemma_challenge_name(state.name);
    reveal_strlit(".");
    reveal_strlit("\"");
    assert("\""@ =~= seq!['"']);
    let record_name = dns01::challenge_name(state.name);
    let looked = record_name + "."@;
    assert(looked.take(looked.len() - 1) =~= record_name);
}

/// What becomes of an authorization: a pending one for a DNS name is taken up under that very
/// name, a valid one is passed over, and all others end it with the reason.
pub proof fn dns01_authorizations(state: Dns01State, status: AuthorizationStatus, offer: Dns01Offer)
    requires
        state.phase is NextAuthorization,
    ensures
        ({
            let next = state.next(Dns01Event::Authorization { status, offer });
            let ended = |failure: ChallengeFailure|
                next.phase == (Dns01Phase::CleanUp { outcome: Err(failure), tried: 0 });
            &&& next.records == state.records
            &&& status is Valid ==> next == state
            &&& !(status is Valid) && !(status is Pending) ==> ended(
                ChallengeFailure::UnsupportedAuthorization(status),
            )
            &&& status is Pending ==> match offer {
                Dns01Offer::ForName(name) => next.phase is FindNameServers && next.name == name@,
                Dns01Offer::Missing => ended(
                    ChallengeFailure::ChallengeNotFound(ChallengeKind::Dns01),
                ),
                Dns01Offer::ForOther => ended(ChallengeFailure::NotADnsName),
            }
        }),
{
}

/// What becomes of the answer to the request for a record: a refusal ends it and nothing is
/// remembered; otherwise the id is remembered behind those before, where there is one, and the
/// record is looked for.
pub proof fn dns01_records(state: Dns01State, success: bool, id: Option<String>)
    requires
        state.phase is CreateRecord,
    ensures
        ({
            let next = state.next(Dns01Event::RecordCreated { success, id });
            &&& next.name == state.name && next.value == state.value
            &&& !success ==> next.records == state.records && next.phase == (Dns01Phase::CleanUp {
                outcome: Err(ChallengeFailure::RecordRefused),
                tried: 0,
            })
            &&& success ==> next.phase == (Dns01Phase::LookUp { looks: 0 })
            &&& success && id is None ==> next.records == state.records
            &&& success && id is Some ==> next.records.len() == state.records.len() + 1
                && next.records.last() == (id->0)@ && next.records.drop_last() == state.records
        }),
{
    if id is Some {
        assert(state.records.push((id->0)@).drop_last() =~= state.records);
    }
}

/// A look shows the record exactly where the text of one of the answers has the value in it,
/// from some character on.
pub proof fn dns01_looks(state: Dns01State, answers: Vec<String>)
    requires
        state.phase is LookUp,
    ensures
        state.next(Dns01Event::Answers(answers)).phase is SetReady <==> exists|i: int, at: int|
            0 <= i < answers@.len() && 0 <= at && at + state.value.len() <= (
            #[trigger] answers@[i])@.len() && #[trigger] answers@[i]@.skip(at).take(
                state.value.len() as int,
            ) == state.value,
        !(state.next(Dns01Event::Answers(answers)).phase is SetReady) ==> state.next(
            Dns01Event::Answers(answers),
        ).phase is Wait,
        state.next(Dns01Event::LookupFailed).phase is Wait,
{
    text::some_text_contains(answers@, state.value);
}

/// A record is looked for up to 30 times, with a wait of 6 seconds after each look in vain, the
/// last one included; then the challenge fails.
pub proof fn dns01_waits_three_minutes(state: Dns01State, events: Seq<Dns01Event>)
    requires
        state.phase == (Dns01Phase::LookUp { looks: 0 }),
        dns01::looks_in_vain(events, state.value),
        events.len() <= 60,
    ensures
        events.len() < 60 && events.len() % 2 == 0 ==> dns01::ran(state, events).action()
            == state.action(),
        events.len() < 60 && events.len() % 2 == 1 ==> dns01::ran(state, events).action()
            == Dns01ActionView::Wait(6),
        events.len() == 60 ==> dns01::ran(state, events).phase == (Dns01Phase::CleanUp {
            outcome: Err(ChallengeFailure::NotPropagated),
            tried: 0,
        }),
{
    dns01::propagation_is_awaited(state, events);
}

/// What becomes of the order: it ends well where it is ready, and with its status otherwise;
/// and a failed action ends it with that reason, at whatever phase.
pub proof fn dns01_outcomes(state: Dns01State, status: OrderStatus)
    ensures
        state.phase is PollOrder ==> state.next(Dns01Event::OrderPolled(status)).phase == (
        Dns01Phase::CleanUp {
            outcome: if status is Ready {
                Ok(())
            } else {
                Err(ChallengeFailure::UnexpectedOrder(ChallengeKind::Dns01, status))
            },
            tried: 0,
        }),
        !(state.phase is CleanUp) ==> state.next(Dns01Event::Failed).phase == (Dns01Phase::CleanUp {
            outcome: Err(ChallengeFailure::Outside),
            tried: 0,
        }),
        state.next(Dns01Event::Failed).records == state.records,
        state.phase is NextAuthorization ==> state.next(Dns01Event::NoMoreAuthorizations)
            == state.to(Dns01Phase::PollOrder),
        state.phase is SetReady ==> state.next(Dns01Event::ChallengeReady).phase
            is NextAuthorization,
        state.phase is FindNameServers ==> state.next(Dns01Event::NameServersFound).phase
            is GetKeyAuthorization,
{
}

/// Each phase asks for the action of its kind.
pub proof fn dns01_phases_ask_for_their_actions(state: Dns01State)
    ensures
        state.phase is NextAuthorization <==> state.action() is NextAuthorization,
        state.phase is FindNameServers <==> state.action() is FindNameServers,
        state.phase is GetKeyAuthorization <==> state.action() is GetKeyAuthorization,
        state.phase is CreateRecord <==> state.action() is CreateRecord,
        state.phase is LookUp <==> state.action() is LookUpTxt,
        state.phase is Wait <==> state.action() is Wait,
        state.phase is SetReady <==> state.action() is SetReady,
        state.phase is PollOrder <==> state.action() is PollOrder,
        state.action() matches Dns01ActionView::Finish(end) ==> (
        state.phase matches Dns01Phase::CleanUp { outcome, tried } && end == outcome && tried
            >= state.records.len()),
{
}

/// What becomes of each event while HTTP-01 challenges are answered: a pending authorization
/// that offers a challenge is taken up, a valid one is passed over, and all others end it with
/// the reason; the token and the content that came are the ones that are registered; it ends
/// well where the order is ready, and with its status otherwise; and a failed action ends it.
pub proof fn http01_steps_follow_the_answers(
    now: Http01,
    status: AuthorizationStatus,
    offered: bool,
    token: String,
    content: String,
    order: OrderStatus,
)
    ensures
        now is StartServer ==> now.next(Http01Event::ServerStarted) is NextAuthorization && now.next(
            Http01Event::Failed,
        ) == Http01::Finished(Err(ChallengeFailure::Outside)),
        now is NextAuthorization ==> ({
            let next = now.next(Http01Event::Authorization { status, offered });
            &&& status is Valid ==> next is NextAuthorization
            &&& status is Pending && offered ==> next is GetKeyAuthorization
            &&& status is Pending && !offered ==> next == Http01::StopServer(
                Err(ChallengeFailure::ChallengeNotFound(ChallengeKind::Http01)),
            )
            &&& !(status is Valid) && !(status is Pending) ==> next == Http01::StopServer(
                Err(ChallengeFailure::UnsupportedAuthorization(status)),
            )
            &&& now.next(Http01Event::NoMoreAuthorizations) is PollOrder
        }),
        now is GetKeyAuthorization ==> forall|action: Http01Action| #[trigger]
            now.next(Http01Event::KeyAuthorization { token, content }).asks(action) ==> action == (
            Http01Action::Register { token, content }),
        now is Register ==> now.next(Http01Event::Registered) is SetReady,
        now is SetReady ==> now.next(Http01Event::ChallengeReady) is NextAuthorization,
        now is PollOrder ==> now.next(Http01Event::OrderPolled(order)) == Http01::StopServer(
            if order is Ready {
                Ok(())
            } else {
                Err(ChallengeFailure::UnexpectedOrder(ChallengeKind::Http01, order))
            },
        ),
        now matches Http01::StopServer(outcome) ==> now.next(Http01Event::ServerStopped)
            == Http01::Finished(outcome) && now.next(Http01Event::Failed) == Http01::Finished(
            outcome,
        ),
        !(now is StartServer) && !(now is StopServer) && !(now is Finished) ==> now.next(
            Http01Event::Failed,
        ) == Http01::StopServer(Err(ChallengeFailure::Outside)),
{
}

/// Each state asks for the action of its kind, and it is over with the outcome that was
/// certain.
pub proof fn http01_states_ask_for_their_actions(now: Http01, action: Http01Action)
    requires
        now.asks(action),
    ensures
        now is StartServer <==> action is StartServer,
        now is NextAuthorization <==> action is NextAuthorization,
        now is GetKeyAuthorization <==> action is GetKeyAuthorization,
        now is Register <==> action is Register,
        now is SetReady <==> action is SetReady,
        now is PollOrder <==> action is PollOrder,
        now is StopServer <==> action is StopServer,
        action matches Http01Action::Finish(outcome) ==> now == Http01::Finished(outcome),
        now is Finished ==> action is Finish,
{
}

/// A request for a token is answered with 200 and the very content that was registered last
/// for it, and with 404 and nothing where none was.
pub proof fn responses_are_what_was_registered(
    tokens: Map<Seq<char>, Seq<char>>,
    token: Seq<char>,
    content: Seq<char>,
)
    ensures
        http01::response(http01::with_token(tokens, token, content), token).0 == 200,
        http01::response(http01::with_token(tokens, token, content), token).1 == content,
        tokens.contains_key(token) ==> http01::response(tokens, token) == (200u16, tokens[token]),
        !tokens.contains_key(token) ==> http01::response(tokens, token).0 == 404
            && http01::response(tokens, token).1.len() == 0,
{
}

/// Challenges are answered in the configured way and with the configured credentials or
/// address, from the very start, unless credentials are lacking.
pub proof fn configured_challenge_is_run(
    challenge: AcmeChallengeType,
    r: Result<ChallengeRun, AcmeError>,
)
    requires
        challenge::runs(challenge, r),
    ensures
        issuing::lacks_credentials(challenge) <==> r is Err,
        r is Err ==> r->Err_0 is CloudflareNotConfigured,
        r is Ok ==> match (challenge, r->Ok_0) {
            (
                AcmeChallengeType::Dns01 { cloudflare_api_token, cloudflare_zone_id },
                ChallengeRun::Dns01 { dns01, cloudflare_api_token: token, cloudflare_zone_id: zone },
            ) => token == cloudflare_api_token && zone == cloudflare_zone_id
                && dns01@.phase is NextAuthorization && dns01@.records.len() == 0,
            (
                AcmeChallengeType::Http01 { bind_addr },
                ChallengeRun::Http01 { http01, bind_addr: addr },
            ) => addr == bind_addr && http01 is StartServer,
            _ => false,
        },
{
}

/// An action is seen as it is: with the very texts, record, seconds and outcome that it
/// carries.
pub proof fn dns01_actions_are_seen_as_they_are(action: Dns01Action)
    ensures
        match action {
            Dns01Action::NextAuthorization => action@ is NextAuthorization,
            Dns01Action::FindNameServers(name) => action@ == Dns01ActionView::FindNameServers(name@),
            Dns01Action::GetKeyAuthorization => action@ is GetKeyAuthorization,
            Dns01Action::CreateRecord(record) => action@ matches Dns01ActionView::CreateRecord(seen)
                && seen.record_type == record.record_type && seen.name == record.name@
                && seen.content == record.content@ && seen.ttl == record.ttl && seen.proxied
                == record.proxied,
            Dns01Action::LookUpTxt(name) => action@ == Dns01ActionView::LookUpTxt(name@),
            Dns01Action::Wait(seconds) => action@ == Dns01ActionView::Wait(seconds),
            Dns01Action::SetReady => action@ is SetReady,
            Dns01Action::PollOrder => action@ is PollOrder,
            Dns01Action::DeleteRecord(id) => action@ == Dns01ActionView::DeleteRecord(id@),
            Dns01Action::Finish(outcome) => action@ == Dns01ActionView::Finish(outcome),
        },
{
}

} // verus!
