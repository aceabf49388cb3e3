//! A single HTTP(S) probe against one configured service.
//!
//! A probe sends one request, waits for the head of the response and then
//! drains the body, discarding it. Every probe opens a fresh connection: a
//! reused one would hide the failures and the latency that a probe exists to
//! detect.
use vstd::prelude::*;

use crate::addr::SocketAddr;
use crate::config::{in_ranges, ServiceConfig, ServiceView};
use crate::duration::Duration;
use crate::text::{decimal, decimal_text};

verus! {

/// Result of one probe run.
#[derive(Debug)]
pub struct ProbeOutcome {
    pub success: bool,
    /// HTTP status if a response line was received; `None` on transport failure.
    pub status: Option<u16>,
    /// Time until the response headers were received. `None` if the probe never
    /// got that far.
    pub ttfb: Option<Duration>,
    /// Time until the outcome was known.
    pub total: Duration,
    /// The reason of a failure, for the log.
    pub error: Option<String>,
}

/// The contents of a `ProbeOutcome`.
pub struct OutcomeView {
    pub success: bool,
    pub status: Option<u16>,
    pub ttfb: Option<Duration>,
    pub total: Duration,
    pub error: Option<Seq<char>>,
}

impl OutcomeView {
    /// Whether the whole seconds of the times fit in 64 bits.
    pub open spec fn in_range(self) -> bool {
        &&& self.total.in_range()
        &&& self.ttfb matches Some(d) ==> d.in_range()
    }
}

impl View for ProbeOutcome {
    type V = OutcomeView;

    open spec fn view(&self) -> OutcomeView {
        OutcomeView {
            success: self.success,
            status: self.status,
            ttfb: self.ttfb,
            total: self.total,
            error: match self.error {
                Some(e) => Some(e@),
                None => None,
            },
        }
    }
}

// ---------------------------------------------------------------------------
// Transport errors.
// ---------------------------------------------------------------------------

/// What an HTTP client says of a request that failed.
#[derive(Debug)]
pub struct TransportError {
    pub is_timeout: bool,
    pub is_connect: bool,
    pub is_redirect: bool,
    pub is_request: bool,
    pub is_body: bool,
    pub is_decode: bool,
    /// The error's own text.
    pub message: String,
    /// The texts of its causes, outermost first.
    pub causes: Vec<String>,
}

/// The stable category of an error; the first that applies.
pub open spec fn category_of(e: TransportError) -> Seq<char> {
    if e.is_timeout {
        "timeout"@
    } else if e.is_connect {
        "connect"@
    } else if e.is_redirect {
        "redirect"@
    } else if e.is_request {
        "request"@
    } else if e.is_body || e.is_decode {
        "body"@
    } else {
        "other"@
    }
}

/// A text with each cause behind it, after a colon.
pub open spec fn with_causes(text: Seq<char>, causes: Seq<String>) -> Seq<char>
    decreases causes.len(),
{
    if causes.len() == 0 {
        text
    } else {
        with_causes(text, causes.drop_last()) + (": "@ + causes.last()@)
    }
}

/// An error in one line: its category, its text and the whole chain of its
/// causes.
pub open spec fn classified(e: TransportError) -> Seq<char> {
    with_causes(category_of(e) + ": "@ + e.message@, e.causes@)
}

/// Puts a stable category before the text of an error, so that log lines can be
/// searched, and the chain of its causes behind it, which the text alone hides.
pub fn classify_error(e: &TransportError) -> (r: String)
    ensures
        r@ == classified(*e),
{
    let category = if e.is_timeout {
        "timeout"
    } else if e.is_connect {
        "connect"
    } else if e.is_redirect {
        "redirect"
    } else if e.is_request {
        "request"
    } else if e.is_body || e.is_decode {
        "body"
    } else {
        "other"
    };
    let mut message = category.to_owned().concat(": ").concat(e.message.as_str());
    let ghost head = message@;
    let mut i: usize = 0;
    while i < e.causes.len()
        invariant
            i <= e.causes@.len(),
            message@ == with_causes(head, e.causes@.take(i as int)),
        decreases e.causes@.len() - i,
    {
        message.append(": ".to_owned().concat(e.causes[i].as_str()).as_str());
        assert(e.causes@.take(i + 1).drop_last() =~= e.causes@.take(i as int));
        i = i + 1;
    }
    assert(e.causes@.take(i as int) =~= e.causes@);
    message
}

// ---------------------------------------------------------------------------
// The client.
// ---------------------------------------------------------------------------

/// How many redirects a probe follows.
#[derive(Debug, Clone, Copy, PartialEq, Eq, Structural)]
pub enum Redirects {
    UpTo(usize),
    Off,
}

/// How the HTTP client of a service is to be built.
#[derive(Debug)]
pub struct ClientPlan {
    pub user_agent: String,
    /// Idle connections kept for reuse.
    pub max_idle_per_host: usize,
    pub timeout: Duration,
    pub connect_timeout: Duration,
    pub redirects: Redirects,
    /// A host that resolves to a fixed address, for this host alone.
    pub pin: Option<(String, SocketAddr)>,
}

/// The contents of a `ClientPlan`.
pub struct ClientView {
    pub user_agent: Seq<char>,
    pub max_idle_per_host: usize,
    pub timeout: Duration,
    pub connect_timeout: Duration,
    pub redirects: Redirects,
    pub pin: Option<(Seq<char>, SocketAddr)>,
}

impl View for ClientPlan {
    type V = ClientView;

    open spec fn view(&self) -> ClientView {
        ClientView {
            user_agent: self.user_agent@,
            max_idle_per_host: self.max_idle_per_host,
            timeout: self.timeout,
            connect_timeout: self.connect_timeout,
            redirects: self.redirects,
            pin: match self.pin {
                Some((host, addr)) => Some((host@, addr)),
                None => None,
            },
        }
    }
}

/// The redirects that a probe follows at most.
pub const MAX_REDIRECTS: usize = 10;

/// The client that a service needs: no connection is reused, the service's
/// timeout bounds the connection and the whole request, and the host of its URL
/// is pinned where the service has an override.
pub open spec fn client_of(service: ServiceView, version: Seq<char>) -> ClientView {
    ClientView {
        user_agent: "uptime-exporter/"@ + version,
        max_idle_per_host: 0,
        timeout: service.timeout,
        connect_timeout: service.timeout,
        redirects: if service.follow_redirects {
            Redirects::UpTo(MAX_REDIRECTS)
        } else {
            Redirects::Off
        },
        pin: match service.resolve_override {
            Some(addr) => Some((service.url.host->0, addr)),
            None => None,
        },
    }
}

// ---------------------------------------------------------------------------
// The probe.
// ---------------------------------------------------------------------------

/// How far a probe has come, and so what it waits for.
#[derive(Debug)]
pub enum ProbePhase {
    /// The request is to be sent; the head of the response is awaited.
    AwaitingHead,
    /// The head has come; the next chunk of the body is awaited.
    Draining { status: u16, ttfb: Duration },
    /// The outcome is known.
    Finished(ProbeOutcome),
}

/// What happens to a probe. Every `elapsed` is measured from its start.
#[derive(Debug)]
pub enum ProbeEvent {
    /// The head of the response was received.
    Head { status: u16, elapsed: Duration },
    /// The request failed before the head of a response was received.
    SendFailed { error: TransportError, elapsed: Duration },
    /// A chunk of the body was received.
    Chunk,
    /// The body was received to its end.
    End { elapsed: Duration },
    /// The body broke off.
    BodyFailed { error: TransportError, elapsed: Duration },
}

/// The contents of a `ProbePhase`.
pub enum PhaseView {
    AwaitingHead,
    Draining { status: u16, ttfb: Duration },
    Finished(OutcomeView),
}

impl View for ProbePhase {
    type V = PhaseView;

    open spec fn view(&self) -> PhaseView {
        match self {
            ProbePhase::AwaitingHead => PhaseView::AwaitingHead,
            ProbePhase::Draining { status, ttfb } => PhaseView::Draining {
                status: *status,
                ttfb: *ttfb,
            },
            ProbePhase::Finished(outcome) => PhaseView::Finished(outcome@),
        }
    }
}

/// Whether an event can happen in a phase.
pub open spec fn can_happen(phase: PhaseView, event: ProbeEvent) -> bool {
    match phase {
        PhaseView::AwaitingHead => event is Head || event is SendFailed,
        PhaseView::Draining { .. } => event is Chunk || event is End || event is BodyFailed,
        PhaseView::Finished(_) => false,
    }
}

/// The outcome of a request that failed before a response came.
pub open spec fn failed_send(error: TransportError, elapsed: Duration) -> OutcomeView {
    OutcomeView {
        success: false,
        status: None,
        ttfb: None,
        total: elapsed,
        error: Some(classified(error)),
    }
}

/// The outcome of a response whose body broke off.
pub open spec fn failed_body(
    status: u16,
    ttfb: Duration,
    error: TransportError,
    elapsed: Duration,
) -> OutcomeView {
    OutcomeView {
        success: false,
        status: Some(status),
        ttfb: Some(ttfb),
        total: elapsed,
        error: Some("body read failed: "@ + classified(error)),
    }
}

/// The outcome of a complete response: up where its status is acceptable.
pub open spec fn complete_response(
    service: ServiceView,
    status: u16,
    ttfb: Duration,
    elapsed: Duration,
) -> OutcomeView {
    OutcomeView {
        success: in_ranges(service.acceptable_status, status),
        status: Some(status),
        ttfb: Some(ttfb),
        total: elapsed,
        error: if in_ranges(service.acceptable_status, status) {
            None
        } else {
            Some("unacceptable HTTP status "@ + decimal(status as nat))
        },
    }
}

/// The phase after an event.
pub open spec fn next_phase(service: ServiceView, phase: PhaseView, event: ProbeEvent) -> PhaseView {
    match (phase, event) {
        (PhaseView::AwaitingHead, ProbeEvent::Head { status, elapsed }) => PhaseView::Draining {
            status,
            ttfb: elapsed,
        },
        (
            PhaseView::AwaitingHead,
            ProbeEvent::SendFailed { error, elapsed },
        ) => PhaseView::Finished(failed_send(error, elapsed)),
        (PhaseView::Draining { status, ttfb }, ProbeEvent::End { elapsed }) => PhaseView::Finished(
            complete_response(service, status, ttfb, elapsed),
        ),
        (
            PhaseView::Draining { status, ttfb },
            ProbeEvent::BodyFailed { error, elapsed },
        ) => PhaseView::Finished(failed_body(status, ttfb, error, elapsed)),
        _ => phase,
    }
}

/// A service with the client that probes it.
#[derive(Debug)]
pub struct Prober {
    pub client: ClientPlan,
    pub service: ServiceConfig,
}

impl Prober {
    /// A prober for a service. A service with an override has a URL with a
    /// host, as every validated service has.
    pub fn new(service: ServiceConfig, version: &str) -> (p: Prober)
        requires
            service@.resolve_override is Some ==> service@.url.host is Some,
        ensures
            p.service == service,
            p.client@ == client_of(service@, version@),
            p.client.user_agent@ == "uptime-exporter/"@ + version@,
            p.client.max_idle_per_host == 0,
            p.client.timeout == service.timeout,
            p.client.connect_timeout == service.timeout,
            p.client.redirects == if service.follow_redirects {
                Redirects::UpTo(10)
            } else {
                Redirects::Off
            },
            p.client.pin is Some <==> service.resolve_override is Some,
            p.client.pin matches Some((host, addr)) ==> service.url.host is Some && host@
                == service.url.host->0@ && service.resolve_override == Some(addr),
    {
        let pin = match service.resolve_override {
            Some(addr) => match &service.url.host {
                Some(host) => Some((host.clone(), addr)),
                None => None,
            },
            None => None,
        };
        let client = ClientPlan {
            user_agent: "uptime-exporter/".to_owned().concat(version),
            max_idle_per_host: 0,
            timeout: service.timeout,
            connect_timeout: service.timeout,
            redirects: if service.follow_redirects {
                Redirects::UpTo(MAX_REDIRECTS)
            } else {
                Redirects::Off
            },
            pin,
        };
        Prober { client, service }
    }

    /// Takes a probe one event further. It starts in
    /// `ProbePhase::AwaitingHead`.
    pub fn probe(&self, phase: ProbePhase, event: ProbeEvent) -> (next: ProbePhase)
        requires
            can_happen(phase@, event),
        ensures
            next@ == next_phase(self.service@, phase@, event),
            phase is AwaitingHead && event is Head ==> {
                &&& next is Draining
                &&& next->Draining_status == event->Head_status
                &&& next->Draining_ttfb == event->Head_elapsed
            },
            phase is AwaitingHead && event is SendFailed ==> {
                &&& next is Finished
                &&& !next->Finished_0.success
                &&& next->Finished_0.status is None
                &&& next->Finished_0.ttfb is None
                &&& next->Finished_0.total == event->SendFailed_elapsed
                &&& next->Finished_0.error is Some
                &&& next->Finished_0.error->0@ == classified(event->SendFailed_error)
            },
            phase is Draining && event is Chunk ==> {
                &&& next is Draining
                &&& next->Draining_status == phase->Draining_status
                &&& next->Draining_ttfb == phase->Draining_ttfb
            },
            phase is Draining && event is BodyFailed ==> {
                &&& next is Finished
                &&& !next->Finished_0.success
                &&& next->Finished_0.status == Some(phase->Draining_status)
                &&& next->Finished_0.ttfb == Some(phase->Draining_ttfb)
                &&& next->Finished_0.total == event->BodyFailed_elapsed
                &&& next->Finished_0.error is Some
                &&& next->Finished_0.error->0@ == "body read failed: "@ + classified(
                    event->BodyFailed_error,
                )
            },
            phase is Draining && event is End ==> {
                let ranges = self.service.acceptable_status@;
                let status = phase->Draining_status;
                &&& next is Finished
                &&& next->Finished_0.status == Some(status)
                &&& next->Finished_0.ttfb == Some(phase->Draining_ttfb)
                &&& next->Finished_0.total == event->End_elapsed
                &&& next->Finished_0.success <==> (exists|i: int|
                    0 <= i < ranges.len() && (#[trigger] ranges[i]).0 <= status && status
                        <= ranges[i].1)
                &&& next->Finished_0.success ==> next->Finished_0.error is None
                &&& !next->Finished_0.success ==> next->Finished_0.error is Some
                    && next->Finished_0.error->0@ == "unacceptable HTTP status "@ + decimal(
                    status as nat,
                )
            },
    {
        match phase {
            ProbePhase::AwaitingHead => match event {
                ProbeEvent::Head { status, elapsed } => ProbePhase::Draining {
                    status,
                    ttfb: elapsed,
                },
                ProbeEvent::SendFailed { error, elapsed } => ProbePhase::Finished(
                    ProbeOutcome {
                        success: false,
                        status: None,
                        ttfb: None,
                        total: elapsed,
                        error: Some(classify_error(&error)),
                    },
                ),
                _ => ProbePhase::AwaitingHead,
            },
            ProbePhase::Draining { status, ttfb } => match event {
                ProbeEvent::End { elapsed } => {
                    let acceptable = self.service.is_acceptable(status);
                    let error = if acceptable {
                        None
                    } else {
                        Some(
                            "unacceptable HTTP status ".to_owned().concat(
                                decimal_text(status as u64).as_str(),
                            ),
                        )
                    };
                    ProbePhase::Finished(
                        ProbeOutcome {
                            success: acceptable,
                            status: Some(status),
                            ttfb: Some(ttfb),
                            total: elapsed,
                            error,
                        },
                    )
                },
                ProbeEvent::BodyFailed { error, elapsed } => {
                    let error = Some(
                        "body read failed: ".to_owned().concat(classify_error(&error).as_str()),
                    );
                    ProbePhase::Finished(
                        ProbeOutcome {
                            success: false,
                            status: Some(status),
                            ttfb: Some(ttfb),
                            total: elapsed,
                            error,
                        },
                    )
                },
                _ => ProbePhase::Draining { status, ttfb },
            },
            ProbePhase::Finished(outcome) => ProbePhase::Finished(outcome),
        }
    }
}

// ---------------------------------------------------------------------------
// What holds of every probe.
// ---------------------------------------------------------------------------

/// The phase after some events.
pub open spec fn phase_after(service: ServiceView, events: Seq<ProbeEvent>) -> PhaseView
    decreases events.len(),
{
    if events.len() == 0 {
        PhaseView::AwaitingHead
    } else {
        next_phase(service, phase_after(service, events.drop_last()), events.last())
    }
}

/// Whether some events can happen to one probe, in this order.
pub open spec fn possible(service: ServiceView, events: Seq<ProbeEvent>) -> bool
    decreases events.len(),
{
    events.len() > 0 ==> possible(service, events.drop_last()) && can_happen(
        phase_after(service, events.drop_last()),
        events.last(),
    )
}

/// An outcome whose parts agree: it names an error exactly where it is a
/// failure, it has a time to first byte exactly where it has a status, and a
/// success has an acceptable status.
pub open spec fn consistent(service: ServiceView, outcome: OutcomeView) -> bool {
    &&& outcome.success <==> outcome.error is None
    &&& outcome.status is Some <==> outcome.ttfb is Some
    &&& outcome.success ==> outcome.status is Some && in_ranges(
        service.acceptable_status,
        outcome.status->0,
    )
}

/// Whatever happens to a probe, the parts of its outcome agree.
pub proof fn law_outcome_consistent(service: ServiceView, events: Seq<ProbeEvent>)
    requires
        possible(service, events),
        phase_after(service, events) is Finished,
    ensures
        consistent(service, phase_after(service, events)->Finished_0),
{
    assert(events.len() > 0);
}

/// The time that an event tells, where it tells one.
pub open spec fn time_of(event: ProbeEvent) -> Option<Duration> {
    match event {
        ProbeEvent::Head { elapsed, .. } => Some(elapsed),
        ProbeEvent::SendFailed { elapsed, .. } => Some(elapsed),
        ProbeEvent::Chunk => None,
        ProbeEvent::End { elapsed } => Some(elapsed),
        ProbeEvent::BodyFailed { elapsed, .. } => Some(elapsed),
    }
}

/// Whether the clock never goes back over some events.
pub open spec fn clock_runs(events: Seq<ProbeEvent>) -> bool {
    forall|i: int, j: int|
        #![trigger events[i], events[j]]
        0 <= i < j < events.len() && time_of(events[i]) is Some && time_of(events[j]) is Some
            ==> time_of(events[i])->0.nanos <= time_of(events[j])->0.nanos
}

/// While the body is drained, the time to first byte is the one that the first
/// event told.
proof fn lemma_draining_started(service: ServiceView, events: Seq<ProbeEvent>)
    requires
        possible(service, events),
        phase_after(service, events) is Draining,
    ensures
        events.len() > 0,
        events[0] is Head,
        time_of(events[0]) == Some(phase_after(service, events)->Draining_ttfb),
    decreases events.len(),
{
    let before = events.drop_last();
    if phase_after(service, before) is Draining {
        lemma_draining_started(service, before);
        assert(before[0] == events[0]);
    } else {
        lemma_head_comes_first(service, before);
        assert(before.len() == 0);
        assert(events.last() == events[0]);
    }
}

/// A probe that still awaits the head has seen no event.
proof fn lemma_head_comes_first(service: ServiceView, events: Seq<ProbeEvent>)
    requires
        possible(service, events),
        phase_after(service, events) is AwaitingHead,
    ensures
        events.len() == 0,
    decreases events.len(),
{
    if events.len() > 0 {
        let before = phase_after(service, events.drop_last());
        assert(can_happen(before, events.last()));
        assert(next_phase(service, before, events.last()) !is AwaitingHead);
    }
}

/// On a clock that never goes back, the first byte never comes after the
/// whole.
pub proof fn law_first_byte_within_total(service: ServiceView, events: Seq<ProbeEvent>)
    requires
        possible(service, events),
        clock_runs(events),
        phase_after(service, events) is Finished,
        phase_after(service, events)->Finished_0.ttfb is Some,
    ensures
        phase_after(service, events)->Finished_0.ttfb->0.nanos <= phase_after(
            service,
            events,
        )->Finished_0.total.nanos,
{
    let before = events.drop_last();
    lemma_draining_started(service, before);
    assert(before[0] == events[0]);
    assert(events[events.len() - 1] == events.last());
}

/// Where the whole seconds of all times that the events tell fit in 64 bits,
/// those of the outcome do.
pub proof fn law_times_in_range(service: ServiceView, events: Seq<ProbeEvent>)
    requires
        possible(service, events),
        phase_after(service, events) is Finished,
        forall|i: int|
            0 <= i < events.len() && time_of(#[trigger] events[i]) is Some ==> time_of(
                events[i],
            )->0.in_range(),
    ensures
        phase_after(service, events)->Finished_0.in_range(),
{
    let before = events.drop_last();
    assert(events[events.len() - 1] == events.last());
    if phase_after(service, before) is Draining {
        lemma_draining_started(service, before);
        assert(before[0] == events[0]);
    }
}

/// The events of a response with `chunks` chunks of body, up to its last one.
pub open spec fn response(status: u16, ttfb: Duration, chunks: nat) -> Seq<ProbeEvent> {
    seq![ProbeEvent::Head { status, elapsed: ttfb }] + Seq::new(
        chunks,
        |i: int| ProbeEvent::Chunk,
    )
}

proof fn lemma_response_drains(service: ServiceView, status: u16, ttfb: Duration, chunks: nat)
    ensures
        possible(service, response(status, ttfb, chunks)),
        phase_after(service, response(status, ttfb, chunks)) == (PhaseView::Draining {
            status,
            ttfb,
        }),
    decreases chunks,
{
    let events = response(status, ttfb, chunks);
    if chunks == 0 {
        assert(events.drop_last() =~= seq![]);
        assert(phase_after(service, events.drop_last()) is AwaitingHead);
        assert(events.last() == (ProbeEvent::Head { status, elapsed: ttfb }));
        assert(possible(service, events.drop_last()));
    } else {
        let fewer = (chunks - 1) as nat;
        lemma_response_drains(service, status, ttfb, fewer);
        assert(events.drop_last() =~= response(status, ttfb, fewer));
        assert(events.last() == ProbeEvent::Chunk);
    }
}

/// A response that is received whole, in however many chunks, is a success
/// exactly where its status is acceptable, and its outcome tells its status and
/// its times.
pub proof fn law_whole_response(
    service: ServiceView,
    status: u16,
    ttfb: Duration,
    chunks: nat,
    total: Duration,
)
    ensures
        ({
            let events = response(status, ttfb, chunks).push(ProbeEvent::End { elapsed: total });
            &&& possible(service, events)
            &&& phase_after(service, events) == PhaseView::Finished(
                complete_response(service, status, ttfb, total),
            )
        }),
{
    let events = response(status, ttfb, chunks).push(ProbeEvent::End { elapsed: total });
    lemma_response_drains(service, status, ttfb, chunks);
    assert(events.drop_last() =~= response(status, ttfb, chunks));
}

/// A response that breaks off in its body is a failure, even where its status
/// is acceptable; its outcome still tells the status.
pub proof fn law_broken_body(
    service: ServiceView,
    status: u16,
    ttfb: Duration,
    chunks: nat,
    error: TransportError,
    total: Duration,
)
    ensures
        ({
            let events = response(status, ttfb, chunks).push(
                ProbeEvent::BodyFailed { error, elapsed: total },
            );
            &&& possible(service, events)
            &&& phase_after(service, events) == PhaseView::Finished(
                failed_body(status, ttfb, error, total),
            )
            &&& !failed_body(status, ttfb, error, total).success
            &&& failed_body(status, ttfb, error, total).status == Some(status)
        }),
{
    let events = response(status, ttfb, chunks).push(
        ProbeEvent::BodyFailed { error, elapsed: total },
    );
    lemma_response_drains(service, status, ttfb, chunks);
    assert(events.drop_last() =~= response(status, ttfb, chunks));
}

/// A request that gets no response is a failure without a status and without
/// a time to first byte.
pub proof fn law_no_response(service: ServiceView, error: TransportError, total: Duration)
    ensures
        ({
            let events = seq![ProbeEvent::SendFailed { error, elapsed: total }];
            &&& possible(service, events)
            &&& phase_after(service, events) == PhaseView::Finished(failed_send(error, total))
            &&& !failed_send(error, total).success
            &&& failed_send(error, total).status is None
            &&& failed_send(error, total).ttfb is None
        }),
{
    let events = seq![ProbeEvent::SendFailed { error, elapsed: total }];
    assert(events.drop_last() =~= seq![]);
    assert(possible(service, events.drop_last()));
}

/// A client pins exactly where its service has an override, and then the host
/// of the service's own URL and no other, to the address of the override.
pub proof fn law_pins_own_host(service: ServiceView, version: Seq<char>)
    requires
        service.url.host is Some,
    ensures
        client_of(service, version).pin is Some <==> service.resolve_override is Some,
        client_of(service, version).pin matches Some((host, addr)) ==> {
            &&& service.url.host == Some(host)
            &&& service.resolve_override == Some(addr)
        },
{
}

/// The category of an error is that of the first question that its client
/// answers with yes, and an error without causes is its category and its text.
pub proof fn law_category(e: TransportError)
    requires
        e.causes@.len() == 0,
    ensures
        e.is_timeout ==> classified(e) == "timeout: "@ + e.message@,
        !e.is_timeout && e.is_connect ==> classified(e) == "connect: "@ + e.message@,
        !e.is_timeout && !e.is_connect && e.is_redirect ==> classified(e) == "redirect: "@
            + e.message@,
        !e.is_timeout && !e.is_connect && !e.is_redirect && e.is_request ==> classified(e)
            == "request: "@ + e.message@,
        !e.is_timeout && !e.is_connect && !e.is_redirect && !e.is_request && (e.is_body
            || e.is_decode) ==> classified(e) == "body: "@ + e.message@,
        !e.is_timeout && !e.is_connect && !e.is_redirect && !e.is_request && !e.is_body
            && !e.is_decode ==> classified(e) == "other: "@ + e.message@,
{
    reveal_strlit(": ");
    reveal_strlit("timeout");
    reveal_strlit("timeout: ");
    reveal_strlit("connect");
    reveal_strlit("connect: ");
    reveal_strlit("redirect");
    reveal_strlit("redirect: ");
    reveal_strlit("request");
    reveal_strlit("request: ");
    reveal_strlit("body");
    reveal_strlit("body: ");
    reveal_strlit("other");
    reveal_strlit("other: ");
    assert("timeout"@ + ": "@ =~= "timeout: "@);
    assert("connect"@ + ": "@ =~= "connect: "@);
    assert("redirect"@ + ": "@ =~= "redirect: "@);
    assert("request"@ + ": "@ =~= "request: "@);
    assert("body"@ + ": "@ =~= "body: "@);
    assert("other"@ + ": "@ =~= "other: "@);
}

/// One cause more, at the end of the chain, stands at the end of the line
/// behind a colon, and nothing else of the line changes.
pub proof fn law_causes_appended(e: TransportError, other: TransportError)
    requires
        other.causes@.len() > 0,
        e.causes@ == other.causes@.drop_last(),
        other.is_timeout == e.is_timeout,
        other.is_connect == e.is_connect,
        other.is_redirect == e.is_redirect,
        other.is_request == e.is_request,
        other.is_body == e.is_body,
        other.is_decode == e.is_decode,
        other.message@ == e.message@,
    ensures
        classified(other) == classified(e) + ": "@ + other.causes@[other.causes@.len() - 1]@,
{
    let cause = other.causes@.last()@;
    assert(classified(other) == classified(e) + (": "@ + cause));
    assert(classified(e) + (": "@ + cause) =~= classified(e) + ": "@ + cause);
}

/// What each event does to a probe: the head of a response is kept until its
/// body ends, a chunk changes nothing, and each of the other events ends the
/// probe at the time that it tells.
pub proof fn law_events(
    service: ServiceView,
    status: u16,
    ttfb: Duration,
    error: TransportError,
    elapsed: Duration,
)
    ensures
        next_phase(service, PhaseView::AwaitingHead, ProbeEvent::Head { status, elapsed }) == (
        PhaseView::Draining { status, ttfb: elapsed }),
        next_phase(service, PhaseView::Draining { status, ttfb }, ProbeEvent::Chunk) == (
        PhaseView::Draining { status, ttfb }),
        next_phase(service, PhaseView::AwaitingHead, ProbeEvent::SendFailed { error, elapsed })
            == PhaseView::Finished(
            OutcomeView {
                success: false,
                status: None,
                ttfb: None,
                total: elapsed,
                error: Some(classified(error)),
            },
        ),
        next_phase(
            service,
            PhaseView::Draining { status, ttfb },
            ProbeEvent::BodyFailed { error, elapsed },
        ) == PhaseView::Finished(
            OutcomeView {
                success: false,
                status: Some(status),
                ttfb: Some(ttfb),
                total: elapsed,
                error: Some("body read failed: "@ + classified(error)),
            },
        ),
{
}

/// A response that is received whole tells its status and its times whatever
/// the status is. It is a success where some range of the service holds the
/// status, and a failure that names the status where every range misses it.
pub proof fn law_whole_response_told(
    service: ServiceView,
    status: u16,
    ttfb: Duration,
    chunks: nat,
    total: Duration,
)
    ensures
        ({
            let events = response(status, ttfb, chunks).push(ProbeEvent::End { elapsed: total });
            let phase = phase_after(service, events);
            let outcome = phase->Finished_0;
            let ranges = service.acceptable_status;
            &&& possible(service, events)
            &&& phase is Finished
            &&& outcome.status == Some(status)
            &&& outcome.ttfb == Some(ttfb)
            &&& outcome.total == total
            &&& (exists|i: int|
                0 <= i < ranges.len() && (#[trigger] ranges[i]).0 <= status && status
                    <= ranges[i].1) ==> outcome.success && outcome.error is None
            &&& (forall|i: int|
                0 <= i < ranges.len() ==> status < (#[trigger] ranges[i]).0 || status > ranges[i].1)
                ==> !outcome.success && outcome.error == Some(
                "unacceptable HTTP status "@ + decimal(status as nat),
            )
        }),
{
    law_whole_response(service, status, ttfb, chunks, total);
    let ranges = service.acceptable_status;
    if exists|i: int|
        0 <= i < ranges.len() && (#[trigger] ranges[i]).0 <= status && status <= ranges[i].1 {
        let i = choose|i: int|
            0 <= i < ranges.len() && (#[trigger] ranges[i]).0 <= status && status <= ranges[i].1;
        assert(ranges[i].0 <= status <= ranges[i].1);
        assert(in_ranges(ranges, status));
    }
}

/// What a response that breaks off, or that never comes, is reported as.
pub proof fn law_failures_told(
    service: ServiceView,
    status: u16,
    ttfb: Duration,
    chunks: nat,
    error: TransportError,
    total: Duration,
)
    ensures
        ({
            let events = response(status, ttfb, chunks).push(
                ProbeEvent::BodyFailed { error, elapsed: total },
            );
            let outcome = phase_after(service, events)->Finished_0;
            &&& phase_after(service, events) is Finished
            &&& !outcome.success
            &&& outcome.status == Some(status)
            &&& outcome.ttfb == Some(ttfb)
            &&& outcome.total == total
            &&& outcome.error == Some("body read failed: "@ + classified(error))
        }),
        ({
            let events = seq![ProbeEvent::SendFailed { error, elapsed: total }];
            let outcome = phase_after(service, events)->Finished_0;
            &&& phase_after(service, events) is Finished
            &&& !outcome.success
            &&& outcome.status is None
            &&& outcome.ttfb is None
            &&& outcome.total == total
            &&& outcome.error == Some(classified(error))
        }),
{
    law_broken_body(service, status, ttfb, chunks, error, total);
    law_no_response(service, error, total);
}

/// A probe that has not finished has received a head and chunks, or nothing.
proof fn lemma_unfinished(service: ServiceView, events: Seq<ProbeEvent>)
    requires
        possible(service, events),
        phase_after(service, events) !is Finished,
    ensures
        events.len() == 0 || exists|status: u16, ttfb: Duration, chunks: nat|
            events == #[trigger] response(status, ttfb, chunks),
    decreases events.len(),
{
    if events.len() > 0 {
        let before = events.drop_last();
        let last = events.last();
        lemma_unfinished(service, before);
        assert(events =~= before.push(last));
        if before.len() == 0 {
            assert(phase_after(service, before) is AwaitingHead);
            let status = last->Head_status;
            let ttfb = last->Head_elapsed;
            assert(events =~= response(status, ttfb, 0));
        } else {
            let (status, ttfb, chunks) = choose|status: u16, ttfb: Duration, chunks: nat|
                before == #[trigger] response(status, ttfb, chunks);
            lemma_response_drains(service, status, ttfb, chunks);
            assert(last is Chunk);
            assert(events =~= response(status, ttfb, chunks + 1));
        }
    }
}

/// Every probe that finishes got no response, a whole response or one that broke
/// off: there is no other way to an outcome.
pub proof fn law_ways_to_finish(service: ServiceView, events: Seq<ProbeEvent>)
    requires
        possible(service, events),
        phase_after(service, events) is Finished,
    ensures
        ({
            ||| exists|error: TransportError, total: Duration|
                events == seq![#[trigger] send_failed(error, total)]
            ||| exists|status: u16, ttfb: Duration, chunks: nat, last: ProbeEvent|
                events == (#[trigger] response(status, ttfb, chunks).push(last)) && (last is End
                    || last is BodyFailed)
        }),
{
    let before = events.drop_last();
    let last = events.last();
    assert(events.len() > 0);
    assert(events =~= before.push(last));
    lemma_unfinished(service, before);
    if before.len() == 0 {
        assert(phase_after(service, before) is AwaitingHead);
        assert(last == send_failed(last->SendFailed_error, last->SendFailed_elapsed));
        assert(events =~= seq![send_failed(last->SendFailed_error, last->SendFailed_elapsed)]);
    } else {
        let (status, ttfb, chunks) = choose|status: u16, ttfb: Duration, chunks: nat|
            before == #[trigger] response(status, ttfb, chunks);
        lemma_response_drains(service, status, ttfb, chunks);
        assert(events == response(status, ttfb, chunks).push(last));
    }
}

/// The event of a request that failed.
pub open spec fn send_failed(error: TransportError, elapsed: Duration) -> ProbeEvent {
    ProbeEvent::SendFailed { error, elapsed }
}

/// The times of an outcome are in range where its total is and, where it has a
/// time to first byte, that is too.
pub proof fn law_outcome_in_range(outcome: OutcomeView)
    ensures
        outcome.ttfb is None ==> (outcome.in_range() <==> outcome.total.in_range()),
        outcome.ttfb is Some ==> (outcome.in_range() <==> outcome.total.in_range()
            && outcome.ttfb->0.in_range()),
{
}

/// A client follows ten redirects where its service follows redirects and none
/// where it does not, keeps no connection, waits as long as the service says
/// both for the connection and for the whole, and tells the version.
pub proof fn law_client(service: ServiceView, version: Seq<char>)
    ensures
        service.follow_redirects ==> client_of(service, version).redirects == Redirects::UpTo(10),
        !service.follow_redirects ==> client_of(service, version).redirects == Redirects::Off,
        client_of(service, version).max_idle_per_host == 0,
        client_of(service, version).timeout.nanos == service.timeout.nanos,
        client_of(service, version).connect_timeout.nanos == service.timeout.nanos,
        client_of(service, version).user_agent == "uptime-exporter/"@ + version,
        service.resolve_override is None ==> client_of(service, version).pin is None,
        service.resolve_override is Some && service.url.host is Some ==> client_of(
            service,
            version,
        ).pin == Some((service.url.host->0, service.resolve_override->0)),
{
}

/// The contents of an outcome, of a plan and of a phase are those of their
/// fields.
pub proof fn law_probe_fields(outcome: ProbeOutcome, plan: ClientPlan, phase: ProbePhase)
    ensures
        outcome@.success == outcome.success,
        outcome@.status == outcome.status,
        outcome@.ttfb == outcome.ttfb,
        outcome@.total == outcome.total,
        outcome.error is None ==> outcome@.error is None,
        outcome.error matches Some(e) ==> outcome@.error == Some(e@),
        plan@.user_agent == plan.user_agent@,
        plan@.max_idle_per_host == plan.max_idle_per_host,
        plan@.timeout == plan.timeout,
        plan@.connect_timeout == plan.connect_timeout,
        plan@.redirects == plan.redirects,
        plan.pin is None ==> plan@.pin is None,
        plan.pin matches Some((host, addr)) ==> plan@.pin == Some((host@, addr)),
        phase is AwaitingHead ==> phase@ is AwaitingHead,
        phase matches ProbePhase::Draining { status, ttfb } ==> phase@ == (PhaseView::Draining {
            status,
            ttfb,
        }),
        phase matches ProbePhase::Finished(o) ==> phase@ == PhaseView::Finished(o@),
{
}

} // verus!
