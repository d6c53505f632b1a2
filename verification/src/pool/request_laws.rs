//! What becomes of a request, step by step.

use vstd::prelude::*;
use vstd::utf8::encode_utf8;
use crate::client_hints::context::ClientHintContext;
use crate::client_hints::store::Asked;
use crate::endpoint::{Endpoint, HeaderView, HttpProtocol, RequestHeader, Route};
use crate::error::{RequestError, RequestErrorKind};
use crate::lru::touched;
use crate::pool::fields::{negotiated, placed, read, NegotiatedFieldsView};
use crate::pool::http1_or_2_pool::{AcquireEvent, AcquireStep, Acquisition, SetupPoll, SetupWait};
use crate::pool::http1_pool::{
    checks, closes, is_challenge, step_after_drain, step_after_send, ChallengeDrain, ChallengeRead,
    ChallengedConnection, HeldConnection, Http1Step, RequestCheck, Sent,
};
use crate::pool::http1_request::{Http1End, Http1Event, Http1Phase, Http1RequestView};
use crate::pool::http2_failure::{may_repeat, Http2Failure, Http2FailureKind};
use crate::pool::http2_pool::admissible;
use crate::pool::http2_request::{Http2Event, Http2Phase, Http2Request};
use crate::pool::http3_request::{Http3Event, Http3Phase, Http3Request, Http3Setup, SetupEvent};
use crate::pool::key::{Http1ConnectionMode, Http2ConnectionMode};
use crate::pool::negotiated::{Acquired, BeforeAdmission};
use crate::pool::negotiated_request::{
    Lease, NegotiatedEnd, NegotiatedEvent, NegotiatedPhase, NegotiatedRequest,
};
use crate::pool::session_search::{SearchEvent, SessionQuery, SessionSearch};
use crate::text::{split, trimmed_text, visible};
use crate::text_laws::{lower_case_ignores_ascii_case_alone, same_letters};
use crate::time::{Duration, Instant};
use crate::timeout::{PhaseTimeout, TimeoutBudget, TimeoutPhase};

verus! {

/// A request is checked for the origin it goes to, or for the proxy that
/// forwards it; where the proxy may ask for the route's credentials, for the
/// repetition with them too.
pub proof fn a_request_is_checked_for_what_it_may_become(
    mode: Http1ConnectionMode,
    route: Route,
    authorized: bool,
)
    ensures
        ({
            let list = checks(mode, route@, authorized);
            let credentials = route matches Route::HttpProxy(proxy) && proxy.credentials is Some;
            &&& mode != Http1ConnectionMode::Forward ==> list == seq![RequestCheck::Origin]
            &&& mode == Http1ConnectionMode::Forward && (authorized || !credentials) ==> list
                == seq![RequestCheck::Forward]
            &&& mode == Http1ConnectionMode::Forward && !authorized && credentials ==> list == seq![
                RequestCheck::Forward,
                RequestCheck::ForwardWithCredentials,
            ]
        }),
{
}

/// A response is a challenge when a forwarding proxy answers 407 and the
/// route has credentials for it; nothing else is.
pub proof fn a_challenge_is_a_407_of_a_proxy_with_credentials(
    mode: Http1ConnectionMode,
    route: Route,
    status: u16,
)
    ensures
        is_challenge(mode, route@, status) == (mode == Http1ConnectionMode::Forward && status == 407
            && (route matches Route::HttpProxy(proxy) && proxy.credentials is Some)),
{
}

/// What follows a sent request: a response is handed out, unless it is a
/// challenge whose answer may still come on its own connection: then its body
/// is read. A challenge that is not answered there, and a connection that
/// took too long, serve no other request.
pub proof fn a_sent_request_is_answered_challenged_or_fails(
    sent: Sent,
    mode: Http1ConnectionMode,
    route: Route,
    challenged: Option<ChallengedConnection>,
)
    ensures
        ({
            let step = step_after_send(sent, mode, route@, challenged);
            match sent {
                Sent::Response(status) => {
                    let challenge = mode == Http1ConnectionMode::Forward && status == 407 && (
                    route matches Route::HttpProxy(proxy) && proxy.credentials is Some);
                    let first = challenged matches Some(slot) && !slot.replayed;
                    &&& !challenge ==> step == (Http1Step::Deliver { retire: false })
                    &&& challenge && first ==> step == Http1Step::Drain
                    &&& challenge && !first ==> step == (Http1Step::Deliver { retire: true })
                },
                Sent::Failed(error) => step == (Http1Step::Fail { error, retire: false }),
                Sent::TimedOut(error) => step == (Http1Step::Fail { error, retire: true }),
            }
        }),
{
}

/// The body of a challenge is read to its end, as long as it does not fail
/// and keeps within the bound; one that takes too long fails the request.
pub proof fn a_challenge_s_body_is_read_within_a_bound(drain: ChallengeDrain, length: usize)
    ensures
        drain.decided(ChallengeRead::End) == Some(Ok::<bool, RequestError>(true)),
        drain.decided(ChallengeRead::Failed) == Some(Ok::<bool, RequestError>(false)),
        drain.decided(ChallengeRead::Other) is None,
        drain.received + length <= drain.max ==> drain.decided(ChallengeRead::Data(length)) is None,
        drain.received + length > drain.max && drain.max < usize::MAX ==> drain.decided(
            ChallengeRead::Data(length),
        ) == Some(Ok::<bool, RequestError>(false)),
        drain.decided(ChallengeRead::Idle) matches Some(Err(error)) && error.kind
            == RequestErrorKind::Timeout && error.phase == Some(TimeoutPhase::ReadIdle),
        drain.received + length <= usize::MAX ==> drain.plus(length) == drain.received + length,
{
}

/// A response closes its connection when its `connection` or
/// `proxy-connection` field lists `close`, in any case and with white space
/// around it.
pub proof fn a_response_closes_its_connection(header: RequestHeader)
    ensures
        closes(header) == ((header.name@ == "connection"@ || header.name@ == "proxy-connection"@)
            && lists_close(header.value@)),
{
    let wanted = "close"@;
    reveal_strlit("close");
    assert(crate::text::lowercase(wanted) =~= wanted);
    if visible(header.value@) is Some {
        let all = split(visible(header.value@)->0, ',');
        assert forall|i: int| 0 <= i < all.len() implies (crate::text::lowercase(
            trimmed_text(#[trigger] all[i]),
        ) == wanted) == same_letters(trimmed_text(all[i]), wanted) by {
            lower_case_ignores_ascii_case_alone(trimmed_text(all[i]), wanted);
        }
        if lists_close(header.value@) {
            let i = choose|i: int|
                0 <= i < all.len() && same_letters(trimmed_text(#[trigger] all[i]), wanted);
            assert(crate::text::lowercase(trimmed_text(all[i])) == wanted);
        }
    }
}

/// Whether a value lists `close` between commas.
pub open spec fn lists_close(value: Seq<u8>) -> bool {
    match visible(value) {
        Some(text) => exists|i: int|
            0 <= i < split(text, ',').len() && same_letters(
                trimmed_text(#[trigger] split(text, ',')[i]),
                "close"@,
            ),
        None => false,
    }
}

/// After its body was read, a challenged connection waits for the answer if
/// the body ended and nothing closes the connection; else it is retired.
pub proof fn a_read_challenge_waits_only_on_an_open_connection(
    drained: Result<bool, RequestError>,
    headers: Seq<RequestHeader>,
)
    ensures
        match drained {
            Err(error) => step_after_drain(drained, headers) == (Http1Step::Fail {
                error,
                retire: true,
            }),
            Ok(false) => step_after_drain(drained, headers) == (Http1Step::Deliver {
                retire: true,
            }),
            Ok(true) => step_after_drain(drained, headers) == (if exists|i: int|
                0 <= i < headers.len() && closes(#[trigger] headers[i]) {
                Http1Step::Deliver { retire: true }
            } else {
                Http1Step::CheckIdle
            }),
        },
{
}

/// An exact HTTP/1.1 request starts on the connection that was challenged for
/// it, unless it needs a fresh one, and else waits for admission; a failed
/// check, and a proxy that cannot be reached over TLS, refuse it.
pub proof fn an_http1_request_starts_where_it_may(
    request: Http1RequestView,
    route: Route,
    checked: Result<(), RequestError>,
)
    requires
        request.route == route@,
    ensures
        ({
            let next = request.started(checked);
            let unreachable = (route matches Route::HttpProxy(proxy) && proxy.tls)
                && !request.https_proxy;
            let held = match request.challenged {
                Some(slot) => slot.held,
                None => None,
            };
            match checked {
                Err(error) => next.phase == Http1Phase::Ended(Http1End::Refused(error)),
                Ok(_) => {
                    &&& unreachable ==> (next.phase matches Http1Phase::Ended(Http1End::Refused(
                        error,
                    )) && error.kind == RequestErrorKind::UnsupportedRoute)
                    &&& !unreachable && held is None ==> next.phase == (Http1Phase::Admission {
                        given_back: None,
                    })
                    &&& !unreachable && held is Some && request.fresh_connection ==> next.phase == (
                    Http1Phase::Admission { given_back: held })
                    &&& !unreachable && held is Some && !request.fresh_connection ==> next.phase
                        == Http1Phase::Sending(held->0)
                    &&& !unreachable ==> (next.challenged matches Some(slot) ==> slot.held is None)
                },
            }
        }),
{
}

/// An exact HTTP/1.1 request goes from one phase to the next: admitted, it
/// takes a connection, sends on it, and ends as what came of it says.
pub proof fn an_http1_request_takes_its_course(
    request: Http1RequestView,
    held: HeldConnection,
    error: RequestError,
    sent: Sent,
    drained: Result<bool, RequestError>,
    headers: Vec<RequestHeader>,
    idle: bool,
)
    ensures
        request.after(Http1Event::Admission(Ok(()))).phase == Http1Phase::Acquiring,
        request.after(Http1Event::Admission(Err(error))).phase == Http1Phase::Ended(
            Http1End::Refused(error),
        ),
        request.after(Http1Event::Acquired(Ok(held))).phase == Http1Phase::Sending(held),
        request.after(Http1Event::Acquired(Err(error))).phase == Http1Phase::Ended(
            Http1End::Failed(error),
        ),
        request.phase == Http1Phase::Sending(held) ==> request.after(
            Http1Event::Sent(sent),
        ).phase == (match step_after_send(sent, request.mode, request.route, request.challenged) {
            Http1Step::Deliver { retire } => Http1Phase::Ended(
                Http1End::Delivered { held, retire },
            ),
            Http1Step::Drain => Http1Phase::Draining(held),
            Http1Step::CheckIdle => Http1Phase::CheckingIdle(held),
            Http1Step::Hold => Http1Phase::Ended(Http1End::Kept(held)),
            Http1Step::Fail { error, retire } => Http1Phase::Ended(
                Http1End::Broken { error, held, retire },
            ),
        }),
        request.phase == Http1Phase::Draining(held) ==> request.after(
            Http1Event::Drained(drained, headers),
        ).phase == (match step_after_drain(drained, headers@) {
            Http1Step::Deliver { retire } => Http1Phase::Ended(
                Http1End::Delivered { held, retire },
            ),
            Http1Step::Drain => Http1Phase::Draining(held),
            Http1Step::CheckIdle => Http1Phase::CheckingIdle(held),
            Http1Step::Hold => Http1Phase::Ended(Http1End::Kept(held)),
            Http1Step::Fail { error, retire } => Http1Phase::Ended(
                Http1End::Broken { error, held, retire },
            ),
        }),
        request.phase == Http1Phase::CheckingIdle(held) ==> {
            let next = request.after(Http1Event::IdleChecked(idle));
            &&& idle && request.challenged is Some ==> next.phase == Http1Phase::Ended(
                Http1End::Kept(held),
            ) && (next.challenged matches Some(slot) && slot.held == Some(held) && slot.replayed
                == request.challenged->0.replayed)
            &&& !idle || request.challenged is None ==> next.phase == Http1Phase::Ended(
                Http1End::Delivered { held, retire: true },
            ) && next.challenged == request.challenged
        },
{
}

/// A failed HTTP/2 stream takes its connection with it when the connection or
/// its protocol failed, and when unprocessed requests are repeated and this
/// one was not processed. The request is repeated once, if it may, after a
/// goodbye without an error.
pub proof fn a_failed_stream_is_judged_by_its_failure(
    failure: Http2Failure,
    retire_unprocessed: bool,
    repeatable: bool,
    repeated: bool,
    is_get: bool,
    has_body: bool,
    trailers: nat,
)
    ensures
        ({
            let outcome = failure.outcome(retire_unprocessed, repeatable, repeated);
            &&& outcome.invalidate == (failure.kind == Http2FailureKind::ConnectionError
                || failure.kind == Http2FailureKind::Protocol || retire_unprocessed
                && failure.unprocessed)
            &&& outcome.replay == (failure.kind == Http2FailureKind::ConnectionError
                && failure.reason_code == Some(0u32) && repeatable && !repeated)
        }),
        may_repeat(is_get, has_body, trailers) == (is_get && !has_body && trailers == 0),
{
}

/// An exact HTTP/2 request can start when its proxy, where it has one over
/// TLS, can be reached that way, and when a forwarded one has a proxy that
/// speaks HTTP/2; otherwise its route is refused.
pub proof fn an_http2_request_starts_where_it_may(
    request: Http2Request,
    checked: Result<(), RequestError>,
    mode: Http2ConnectionMode,
    route: Route,
    https_proxy: bool,
)
    ensures
        ({
            let next = request.started(checked, mode, route@, https_proxy);
            let may = !((route matches Route::HttpProxy(proxy) && proxy.tls) && !https_proxy) && (
            mode == Http2ConnectionMode::Forward ==> (route matches Route::HttpProxy(proxy)
                && proxy.http2));
            &&& admissible(mode, route@, https_proxy) == may
            &&& checked matches Err(error) ==> next.phase == Http2Phase::Refused(error)
            &&& checked is Ok && may ==> next.phase == Http2Phase::Admission
            &&& checked is Ok && !may ==> (next.phase matches Http2Phase::Refused(error)
                && error.kind == RequestErrorKind::UnsupportedRoute && error.protocol == Some(
                HttpProtocol::Http2,
            ))
        }),
{
}

/// An exact HTTP/2 request goes from one phase to the next; a failed stream
/// is repeated on another connection or ends it.
pub proof fn an_http2_request_takes_its_course(
    request: Http2Request,
    connection: u64,
    error: RequestError,
    failure: Http2Failure,
)
    ensures
        request.after(Http2Event::Admission(Ok(()))) == (
            request.at(Http2Phase::Acquiring),
            None::<u64>,
        ),
        request.after(Http2Event::Admission(Err(error))).0.phase == Http2Phase::Refused(error),
        request.after(Http2Event::Acquired(Ok(connection))).0.phase == Http2Phase::Sending(
            connection,
        ),
        request.after(Http2Event::Acquired(Err(error))).0.phase == Http2Phase::Failed(error),
        request.after(Http2Event::Expired(error)).0.phase == Http2Phase::Failed(error),
        request.phase == Http2Phase::Sending(connection) ==> {
            let (next, lost) = request.after(Http2Event::StreamFailed(failure));
            let outcome = failure.outcome(
                request.replays_unprocessed,
                request.repeatable,
                request.repeated,
            );
            &&& request.after(Http2Event::Responded) == (
                request.at(Http2Phase::Delivered(connection)),
                None::<u64>,
            )
            &&& outcome.invalidate ==> lost == Some(connection)
            &&& !outcome.invalidate ==> lost is None
            &&& outcome.replay ==> next.phase == Http2Phase::Acquiring && next.repeated
            &&& !outcome.replay ==> next.phase == Http2Phase::Failed(failure.error)
        },
        request.at(Http2Phase::Acquiring).phase == Http2Phase::Acquiring,
        request.at(Http2Phase::Acquiring).repeated == request.repeated,
{
}

/// An HTTP/3 request goes from one phase to the next; a connection that
/// cannot be reused, and one that left a request unprocessed where such are
/// repeated, takes no other.
pub proof fn an_http3_request_takes_its_course(
    request: Http3Request,
    connection: u64,
    error: RequestError,
    reusable: bool,
    unprocessed: bool,
)
    ensures
        request.after(Http3Event::Checked(Ok(()))).0.phase == Http3Phase::Admission,
        request.after(Http3Event::Checked(Err(error))).0.phase == Http3Phase::Refused(error),
        request.after(Http3Event::Admission(Ok(()))).0.phase == Http3Phase::Acquiring,
        request.after(Http3Event::Admission(Err(error))).0.phase == Http3Phase::Refused(error),
        request.after(Http3Event::Acquired(Ok(connection))).0.phase == Http3Phase::Sending(
            connection,
        ),
        request.after(Http3Event::Acquired(Err(error))).0.phase == Http3Phase::Failed(error),
        request.after(Http3Event::Expired(error)).0.phase == Http3Phase::Failed(error),
        request.phase == Http3Phase::Sending(connection) ==> {
            let (next, lost) = request.after(
                Http3Event::StreamFailed { error, reusable, unprocessed },
            );
            &&& request.after(Http3Event::Responded).0.phase == Http3Phase::Delivered(connection)
            &&& next.phase == Http3Phase::Failed(error)
            &&& lost is Some == (!reusable || request.replays_unprocessed && unprocessed)
            &&& lost is Some ==> lost == Some(connection)
        },
        request.after(Http3Event::Admission(Ok(()))).0.replays_unprocessed
            == request.replays_unprocessed,
{
}

/// A setup waits for its turn, uses the connection that is kept for its
/// location or connects, and fails in time with the connect limit.
pub proof fn an_http3_setup_takes_its_course(
    setup: Http3Setup,
    connection: u64,
    error: RequestError,
)
    ensures
        setup.after(SetupEvent::TurnGranted) == Http3Setup::Looking,
        setup.after(SetupEvent::Found(Some(connection))) == Http3Setup::Reused(connection),
        setup.after(SetupEvent::Found(None)) == Http3Setup::Connecting,
        setup.after(SetupEvent::Connected(Ok(connection))) == Http3Setup::Opened(connection),
        setup.after(SetupEvent::Connected(Err(error))) == Http3Setup::Failed(error),
        setup.after(SetupEvent::LimitReached) matches Http3Setup::Failed(late) && late.kind
            == RequestErrorKind::Timeout && late.phase == Some(TimeoutPhase::Connect)
            && late.protocol == Some(HttpProtocol::Http3),
{
}

/// A negotiated request that brings a lease sends on it; any other is
/// admitted, looks for a connection, with a fresh one on its first attempt
/// where it asked for that, and sends on what it gets.
pub proof fn a_negotiated_request_looks_for_a_connection(
    request: NegotiatedRequest,
    error: RequestError,
    acquisition: Acquisition,
    step: AcquireStep,
    event: AcquireEvent,
)
    ensures
        request.after(NegotiatedEvent::Checked(Err(error))).0.phase == NegotiatedPhase::Ended(
            NegotiatedEnd::Refused(error),
        ),
        request.leased matches Some(lease) ==> request.after(
            NegotiatedEvent::Checked(Ok(())),
        ).0.phase == NegotiatedPhase::Sending(lease),
        request.leased is None ==> request.after(NegotiatedEvent::Checked(Ok(()))).0.phase
            == NegotiatedPhase::Selecting,
        request.after(NegotiatedEvent::Selection(Err(error))).0.phase == NegotiatedPhase::Ended(
            NegotiatedEnd::Refused(error),
        ),
        request.after(
            NegotiatedEvent::Selection(Ok(())),
        ).0.phase matches NegotiatedPhase::Acquiring(start, AcquireStep::Look)
            && start.force_new_connection == request.fresh_http1 && start.selection && !start.slot
            && start.connect is None && !start.setup_wait_expired,
        request.phase == NegotiatedPhase::Acquiring(acquisition, step) ==> {
            let (next, found) = acquisition.after(event);
            let phase = request.after(NegotiatedEvent::Acquiring(event)).0.phase;
            match found {
                AcquireStep::SendHttp1(connection) => phase == NegotiatedPhase::Sending(
                    Lease::Http1(connection),
                ),
                AcquireStep::SendHttp2(connection) => phase == NegotiatedPhase::Sending(
                    Lease::Http2(connection),
                ),
                AcquireStep::Fail(error) => phase == NegotiatedPhase::Ended(
                    NegotiatedEnd::Refused(error),
                ),
                _ => phase == NegotiatedPhase::Acquiring(next, found),
            }
        },
{
}

/// A negotiated request that was sent ends with its response or its failure;
/// over HTTP/2 it is repeated once where it may, admitted anew, and over
/// HTTP/1.1 a connection that took too long is retired.
pub proof fn a_negotiated_request_ends_as_its_protocol_does(
    request: NegotiatedRequest,
    connection: u64,
    error: RequestError,
    status: u16,
    failure: Http2Failure,
)
    ensures
        request.phase == NegotiatedPhase::Sending(Lease::Http1(connection)) ==> {
            let lease = Lease::Http1(connection);
            &&& request.after(NegotiatedEvent::Http1Sent(Sent::Response(status))).0.phase
                == NegotiatedPhase::Ended(NegotiatedEnd::Delivered(lease))
            &&& request.after(NegotiatedEvent::Http1Sent(Sent::Failed(error))).0.phase
                == NegotiatedPhase::Ended(NegotiatedEnd::Broken { error, lease, retire: false })
            &&& request.after(NegotiatedEvent::Http1Sent(Sent::TimedOut(error))).0.phase
                == NegotiatedPhase::Ended(NegotiatedEnd::Broken { error, lease, retire: true })
        },
        request.phase == NegotiatedPhase::Sending(Lease::Http2(connection)) ==> {
            let lease = Lease::Http2(connection);
            let (next, lost) = request.after(NegotiatedEvent::Http2Failed(failure));
            let outcome = failure.outcome(
                request.replays_unprocessed,
                request.repeatable,
                request.repeated,
            );
            &&& request.after(NegotiatedEvent::Http2Responded).0.phase == NegotiatedPhase::Ended(
                NegotiatedEnd::Delivered(lease),
            )
            &&& request.after(NegotiatedEvent::Http2Expired(error)).0.phase
                == NegotiatedPhase::Ended(NegotiatedEnd::Broken { error, lease, retire: false })
            &&& outcome.invalidate ==> lost == Some(connection)
            &&& !outcome.invalidate ==> lost is None
            &&& outcome.replay ==> next.phase == NegotiatedPhase::Selecting && next.repeated
            &&& !outcome.replay ==> next.phase == NegotiatedPhase::Ended(
                NegotiatedEnd::Broken { error: failure.error, lease, retire: false },
            )
        },
{
}

/// How a request finds a connection. Where HTTP/2 takes it, it is admitted
/// there and sends on a stream, or looks again when none is left; it waits
/// for a setup and looks again, on its own after the wait ran out; it takes a
/// slot, at once or after a wait, and then a connection.
pub proof fn a_request_finds_a_connection_step_by_step(
    state: Acquisition,
    protocol: HttpProtocol,
    connection: u64,
    finished: bool,
    error: RequestError,
)
    ensures
        state.after(AcquireEvent::Looked(BeforeAdmission::Http2)) == (
            state,
            AcquireStep::AdmitHttp2,
        ),
        state.after(AcquireEvent::Looked(BeforeAdmission::AwaitSetup)) == (
            state,
            AcquireStep::AwaitHttp2Setup,
        ),
        state.after(AcquireEvent::Looked(BeforeAdmission::Admission(Some(protocol)))) == (
            state,
            AcquireStep::QueueSlot(Some(protocol)),
        ),
        state.after(AcquireEvent::Looked(BeforeAdmission::Admission(None))) == (
            state,
            AcquireStep::TrySlot,
        ),
        state.after(AcquireEvent::Http2Admitted(Some(connection))).1 == AcquireStep::SendHttp2(
            connection,
        ),
        state.after(AcquireEvent::Http2Admitted(None)) == (state, AcquireStep::Look),
        state.after(AcquireEvent::Http2SetupAwaited { finished }).1 == AcquireStep::Look,
        state.after(AcquireEvent::Http2SetupAwaited { finished }).0.setup_wait_expired == (
        state.setup_wait_expired || !finished),
        state.after(AcquireEvent::SlotTried { granted: true }).1 == AcquireStep::Attempt,
        state.after(AcquireEvent::SlotTried { granted: true }).0.slot,
        state.after(AcquireEvent::SlotTried { granted: false }) == (
            state,
            AcquireStep::AwaitSetup,
        ),
        state.after(AcquireEvent::SetupAwaited { waited: true }) == (state, AcquireStep::Look),
        state.after(AcquireEvent::SetupAwaited { waited: false }) == (
            state,
            AcquireStep::QueueSlot(None),
        ),
        state.after(AcquireEvent::SlotGranted).1 == AcquireStep::Attempt,
        state.after(AcquireEvent::SlotGranted).0.slot,
{
}

/// What an attempt comes to: a leased HTTP/1.1 connection keeps its slot,
/// HTTP/2 and a wait give it back, a failure gives it back and is retried or
/// final. The admission before selection is held until the protocol has
/// admitted the request or it has failed.
pub proof fn an_attempt_keeps_its_slot_for_http1_alone(
    state: Acquisition,
    connection: u64,
    error: RequestError,
)
    ensures
        ({
            let (next, step) = state.after(AcquireEvent::Acquired(Acquired::Http1(connection)));
            step == AcquireStep::SendHttp1(connection) && next.slot == state.slot
                && !next.selection
        }),
        ({
            let (next, step) = state.after(AcquireEvent::Acquired(Acquired::Http2));
            step == AcquireStep::AdmitHttp2 && !next.slot && next.selection == state.selection
                && !next.force_new_connection
        }),
        ({
            let (next, step) = state.after(AcquireEvent::Acquired(Acquired::AwaitSetup));
            step == AcquireStep::Look && !next.slot && next.selection == state.selection
        }),
        ({
            let (next, step) = state.after(AcquireEvent::AttemptFailed(error));
            step == AcquireStep::RetryDelay(error) && !next.slot && next.connect is None
                && next.selection == state.selection
        }),
        state.after(AcquireEvent::RetryDecided { error, retry: true }) == (
            state,
            AcquireStep::Look,
        ),
        ({
            let (next, step) = state.after(AcquireEvent::RetryDecided { error, retry: false });
            step == AcquireStep::Fail(error) && !next.selection
        }),
        ({
            let (next, step) = state.after(AcquireEvent::WaitFailed(error));
            step == AcquireStep::Fail(error) && !next.slot && !next.selection
        }),
        !state.after(AcquireEvent::Http2Admitted(Some(connection))).0.selection,
{
}

/// A setup attempt has one connect deadline, from when it first waits, and a
/// wait for another request's setup ends at its limit from when it starts.
pub proof fn a_setup_attempt_has_one_deadline(
    state: Acquisition,
    limit: Option<Duration>,
    budget: TimeoutBudget,
    now: Instant,
)
    ensures
        state.connect matches Some(phase) ==> state.connecting(budget, now) == Ok::<
            PhaseTimeout,
            RequestError,
        >(phase),
        state.connect is None ==> state.connecting(budget, now) == budget.phase_at(
            TimeoutPhase::Connect,
            None,
            now,
        ),
        state.connecting(budget, now) matches Ok(phase) ==> {
            &&& state.with_deadline(budget, now).connect == Some(phase)
            &&& match (limit, state.waits(limit, budget, now)) {
                (None, Ok(wait)) => wait.connect == phase && wait.limit is None,
                (Some(length), Ok(wait)) => wait.connect == phase && (wait.limit matches Some(at)
                    && at.nanos == now.nanos + length.nanos),
                (Some(length), Err(error)) => error.kind == RequestErrorKind::InvalidTimeout
                    && now.nanos + length.nanos > 9_223_372_036_854_775_807_999_999_999,
                (None, Err(_)) => false,
            }
        },
        state.connecting(budget, now) matches Err(error) ==> state.waits(limit, budget, now)
            == Err::<SetupWait, RequestError>(error),
{
}

/// A wait for a setup ends when the setup does, else at its limit, else with
/// the connect deadline, and goes on until one of these.
pub proof fn a_setup_wait_ends_with_what_comes_first(wait: SetupWait, now: Instant)
    ensures
        wait.polled(true, now) == SetupPoll::Finished,
        ({
            let limit = wait.limit matches Some(at) && at.nanos <= now.nanos;
            let late = wait.connect.deadline matches Some(deadline) && deadline.at.nanos
                <= now.nanos;
            match wait.polled(false, now) {
                SetupPoll::Finished => false,
                SetupPoll::LimitPassed => limit,
                SetupPoll::Failed(error) => !limit && late && error.kind
                    == RequestErrorKind::Timeout && (wait.connect.deadline matches Some(deadline)
                    && error.phase == Some(deadline.phase)),
                SetupPoll::Pending => !limit && !late,
            }
        }),
{
}

/// A search asks the negotiated pool first on the direct route and the exact
/// pool on any other; a session that is found is admitted and looked for
/// again, and where there is none the next pool is asked.
pub proof fn a_search_asks_one_pool_after_the_other(
    route: Route,
    connection: u64,
    error: RequestError,
)
    ensures
        route is Direct ==> SessionSearch::over(route@) == SessionSearch::Looking(
            SessionQuery::Negotiated,
        ),
        !(route is Direct) ==> SessionSearch::over(route@) == SessionSearch::Looking(
            SessionQuery::Exact,
        ),
        forall|query: SessionQuery| #[trigger]
            SessionSearch::Looking(query).after(SearchEvent::Looked(Some(connection)))
                == SessionSearch::Admission(query),
        SessionSearch::Looking(SessionQuery::Negotiated).after(SearchEvent::Looked(None))
            == SessionSearch::Looking(SessionQuery::Exact),
        SessionSearch::Looking(SessionQuery::Exact).after(SearchEvent::Looked(None))
            == SessionSearch::Missing,
        forall|query: SessionQuery| #[trigger]
            SessionSearch::Admission(query).after(SearchEvent::Admitted(Ok(Some(connection))))
                == SessionSearch::Found(query, connection),
        SessionSearch::Admission(SessionQuery::Negotiated).after(SearchEvent::Admitted(Ok(None)))
            == SessionSearch::Looking(SessionQuery::Exact),
        SessionSearch::Admission(SessionQuery::Exact).after(SearchEvent::Admitted(Ok(None)))
            == SessionSearch::Missing,
        forall|query: SessionQuery| #[trigger]
            SessionSearch::Admission(query).after(SearchEvent::Admitted(Err(error)))
                == SessionSearch::Failed(error),
{
}

/// Each phase expects its own events and no others, so nothing happens twice
/// or out of turn.
pub proof fn events_come_in_turn(
    http1: Http1RequestView,
    http2: Http2Request,
    http3: Http3Request,
    checked: Result<(), RequestError>,
)
    ensures
        http1.expects(Http1Event::Checked(checked)) == (http1.phase is Checking),
        http1.expects(Http1Event::Admission(checked)) == (http1.phase is Admission),
        http2.expects(Http2Event::Admission(checked)) == (http2.phase is Admission),
        http2.expects(Http2Event::Responded) == (http2.phase is Sending),
        http3.expects(Http3Event::Checked(checked)) == (http3.phase is Checking),
        http3.expects(Http3Event::Admission(checked)) == (http3.phase is Admission),
        http3.expects(Http3Event::Responded) == (http3.phase is Sending),
{
}

/// A request without client hints is sent as it is and reads no store; with
/// them its fields are those that the hints' rules give.
pub proof fn fields_are_placed_by_their_hints(
    context: Option<ClientHintContext>,
    store: Asked,
    given: Seq<HeaderView>,
    accept_ch: Option<Seq<u8>>,
)
    ensures
        context is None ==> placed(context, store, given, accept_ch) == Ok::<
            Seq<HeaderView>,
            RequestError,
        >(given) && read(context, store) == store,
        context matches Some(held) ==> placed(context, store, given, accept_ch) == held.outcome(
            store,
            given,
            accept_ch,
        ) && read(context, store) == touched(store, crate::endpoint::origin_of(held.endpoint)),
{
}

/// A negotiated request has a field list for each protocol: over HTTP/1.1
/// its authority as `Host` in front of its fields, over HTTP/2 the fields
/// alone. Where either cannot be made, the request is refused for that.
pub proof fn a_negotiated_request_has_fields_for_both_protocols(
    endpoint: &Endpoint,
    http1: Seq<HeaderView>,
    http2: Seq<HeaderView>,
    context: Option<ClientHintContext>,
    store: Asked,
)
    ensures
        match (
            placed(context, store, http1, None),
            placed(context, read(context, store), http2, None),
            negotiated(endpoint, http1, http2, context, store),
        ) {
            (Ok(first), Ok(second), Ok(lists)) => lists.http1 == seq![
                HeaderView { name: "Host"@, value: encode_utf8(endpoint.authority@) },
            ] + first && lists.http2 == second,
            (Err(error), _, found) => found == Err::<NegotiatedFieldsView, RequestError>(error),
            (Ok(_), Err(error), found) => found == Err::<NegotiatedFieldsView, RequestError>(error),
            _ => false,
        },
{
}

} // verus!
