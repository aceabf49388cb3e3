//! What a scrape finds, whatever services there are and however their probes
//! went.
//!
//! A family files a series under the hash of its label values, joined with
//! nothing between them. Where the hashes of two services are equal in a family,
//! the two share a series there, so what is said here of several services at
//! once is said of those whose keys differ.
use vstd::prelude::*;
use vstd::utf8::encode_utf8;

use crate::config::{in_ranges, ServiceView};
use crate::duration::Duration;
use crate::exposition::{
    assigned, key_of, label_bytes, name_hash, touched, ExpositionView, FamilyState,
};
use crate::fnv::{fnv, lemma_phases_apart, lemma_results_apart};
use crate::metrics::{
    at_start, family_names, flag, initialized, labels_of, labels_with, lemma_names_apart, recorded,
    registered, result_label, status_or_zero, time_or_zero, BUILD_INFO, PROBE_DURATION,
    PROBE_LAST_RUN, PROBE_STATUS, PROBE_SUCCESS, PROBE_TOTAL,
};
use crate::probe::{phase_after, possible, OutcomeView, ProbeEvent};

verus! {

/// The value of the series that a family files under the key of some labels.
pub open spec fn value_at(f: FamilyState, labels: Seq<Seq<char>>) -> Option<int> {
    if f.series.contains_key(key_of(labels)) {
        Some(f.series[key_of(labels)].value)
    } else {
        None
    }
}

/// What a counter has counted; zero where there is no such series.
pub open spec fn count(e: ExpositionView, service: ServiceView, success: bool) -> int {
    match value_at(e.counters[PROBE_TOTAL as int], labels_with(service, result_label(success))) {
        Some(n) => n,
        None => 0,
    }
}

/// The bytes of the labels of a service and one more.
proof fn lemma_last_label(service: ServiceView, last: Seq<char>)
    ensures
        key_of(labels_with(service, last)) == fnv(
            label_bytes(labels_of(service)) + encode_utf8(last),
        ),
{
    assert(labels_with(service, last).drop_last() =~= labels_of(service));
}

/// The two phases of a service have series of their own, as have its two
/// results.
pub proof fn law_own_series(service: ServiceView)
    ensures
        key_of(labels_with(service, "ttfb"@)) != key_of(labels_with(service, "total"@)),
        key_of(labels_with(service, result_label(true))) != key_of(
            labels_with(service, result_label(false)),
        ),
{
    let front = label_bytes(labels_of(service));
    lemma_last_label(service, "ttfb"@);
    lemma_last_label(service, "total"@);
    lemma_last_label(service, "success"@);
    lemma_last_label(service, "fail"@);
    lemma_phases_apart(front);
    lemma_results_apart(front);
}

/// Whether two families agree on what is filed under a key.
pub open spec fn agree(f: FamilyState, g: FamilyState, key: u64) -> bool {
    &&& f.series.contains_key(key) == g.series.contains_key(key)
    &&& f.series.contains_key(key) ==> f.series[key] == g.series[key]
}

/// The gauges hold the values of the last probe, whatever they held before: one
/// for a success and zero for a failure, zero for a status that was not
/// received and for a phase that was not reached.
pub proof fn law_gauges_hold_last(
    e: ExpositionView,
    service: ServiceView,
    outcome: OutcomeView,
    now: Option<Duration>,
)
    requires
        registered(e),
    ensures
        ({
            let gauges = recorded(e, service, outcome, now).gauges;
            let own = seq![service.name, service.url.text];
            let durations = gauges[PROBE_DURATION as int];
            &&& value_at(gauges[PROBE_SUCCESS as int], own) == Some(flag(outcome.success))
            &&& outcome.success ==> value_at(gauges[PROBE_SUCCESS as int], own) == Some(
                1_000_000_000int,
            )
            &&& !outcome.success ==> value_at(gauges[PROBE_SUCCESS as int], own) == Some(0int)
            &&& value_at(gauges[PROBE_STATUS as int], own) == Some(status_or_zero(outcome.status))
            &&& outcome.status matches Some(s) ==> value_at(gauges[PROBE_STATUS as int], own)
                == Some(s * 1_000_000_000)
            &&& outcome.status is None ==> value_at(gauges[PROBE_STATUS as int], own) == Some(0int)
            &&& value_at(durations, seq![service.name, service.url.text, "ttfb"@]) == Some(
                time_or_zero(outcome.ttfb),
            )
            &&& outcome.ttfb matches Some(d) ==> value_at(
                durations,
                seq![service.name, service.url.text, "ttfb"@],
            ) == Some(d.nanos as int)
            &&& outcome.ttfb is None ==> value_at(
                durations,
                seq![service.name, service.url.text, "ttfb"@],
            ) == Some(0int)
            &&& value_at(durations, seq![service.name, service.url.text, "total"@]) == Some(
                outcome.total.nanos as int,
            )
            &&& value_at(gauges[PROBE_LAST_RUN as int], own) == Some(time_or_zero(now))
            &&& now matches Some(d) ==> value_at(gauges[PROBE_LAST_RUN as int], own) == Some(
                d.nanos as int,
            )
            &&& now is None ==> value_at(gauges[PROBE_LAST_RUN as int], own) == Some(0int)
        }),
{
    law_own_series(service);
}

/// A service is shown as up exactly where its last probe received a whole
/// response with an acceptable status.
pub proof fn law_shown_up(
    e: ExpositionView,
    service: ServiceView,
    events: Seq<ProbeEvent>,
    now: Option<Duration>,
)
    requires
        registered(e),
        possible(service, events),
        phase_after(service, events) is Finished,
    ensures
        ({
            let outcome = phase_after(service, events)->Finished_0;
            let after = recorded(e, service, outcome, now);
            let up = events.last() is End && outcome.status is Some && in_ranges(
                service.acceptable_status,
                outcome.status->0,
            );
            value_at(after.gauges[PROBE_SUCCESS as int], labels_of(service)) == Some(flag(up))
        }),
{
    assert(events.len() > 0);
}

/// Each probe counts once, under its own result; the other counter of the
/// service stays as it was. A counter at the end of its range is left out: it
/// starts over.
pub proof fn law_counts_once(
    e: ExpositionView,
    service: ServiceView,
    outcome: OutcomeView,
    now: Option<Duration>,
)
    requires
        registered(e),
        count(e, service, outcome.success) < u64::MAX,
    ensures
        ({
            let after = recorded(e, service, outcome, now);
            let hit = outcome.success;
            &&& count(after, service, hit) == count(e, service, hit) + 1
            &&& count(after, service, !hit) == count(e, service, !hit)
        }),
{
    law_own_series(service);
}

/// A probe of a service leaves alone, in each family, what is filed under any
/// key but those of the service in that family.
pub proof fn law_services_apart(
    e: ExpositionView,
    service: ServiceView,
    outcome: OutcomeView,
    now: Option<Duration>,
    key: u64,
)
    requires
        registered(e),
    ensures
        ({
            let after = recorded(e, service, outcome, now);
            &&& key != key_of(labels_of(service)) ==> {
                &&& agree(after.gauges[PROBE_SUCCESS as int], e.gauges[PROBE_SUCCESS as int], key)
                &&& agree(after.gauges[PROBE_STATUS as int], e.gauges[PROBE_STATUS as int], key)
                &&& agree(after.gauges[PROBE_LAST_RUN as int], e.gauges[PROBE_LAST_RUN as int], key)
            }
            &&& key != key_of(labels_with(service, "ttfb"@)) && key != key_of(
                labels_with(service, "total"@),
            ) ==> agree(after.gauges[PROBE_DURATION as int], e.gauges[PROBE_DURATION as int], key)
            &&& key != key_of(labels_with(service, result_label(outcome.success))) ==> agree(
                after.counters[PROBE_TOTAL as int],
                e.counters[PROBE_TOTAL as int],
                key,
            )
            &&& after.int_gauges == e.int_gauges
        }),
{
}

/// To make a service known leaves alone, in each family, what is filed under any
/// key but those of the service in that family.
pub proof fn law_initializing_apart(e: ExpositionView, service: ServiceView, key: u64)
    requires
        registered(e),
    ensures
        ({
            let after = initialized(e, service);
            &&& after.gauges[PROBE_SUCCESS as int] == e.gauges[PROBE_SUCCESS as int]
            &&& after.gauges[PROBE_STATUS as int] == e.gauges[PROBE_STATUS as int]
            &&& after.gauges[PROBE_DURATION as int] == e.gauges[PROBE_DURATION as int]
            &&& key != key_of(labels_of(service)) ==> agree(
                after.gauges[PROBE_LAST_RUN as int],
                e.gauges[PROBE_LAST_RUN as int],
                key,
            )
            &&& key != key_of(labels_with(service, result_label(true))) && key != key_of(
                labels_with(service, result_label(false)),
            ) ==> agree(after.counters[PROBE_TOTAL as int], e.counters[PROBE_TOTAL as int], key)
            &&& after.int_gauges == e.int_gauges
        }),
{
}

/// Before its first probe a service shows both counters and the time of its
/// last run, at zero where they were not there before, and no other series.
pub proof fn law_visible_from_start(e: ExpositionView, service: ServiceView)
    requires
        registered(e),
    ensures
        ({
            let after = initialized(e, service);
            let success = labels_with(service, result_label(true));
            let fail = labels_with(service, result_label(false));
            let own = labels_of(service);
            let before_total = e.counters[PROBE_TOTAL as int];
            let total = after.counters[PROBE_TOTAL as int];
            let before_last_run = e.gauges[PROBE_LAST_RUN as int];
            let last_run = after.gauges[PROBE_LAST_RUN as int];
            &&& value_at(total, success) == Some(
                match value_at(before_total, success) {
                    Some(n) => n,
                    None => 0,
                },
            )
            &&& value_at(total, fail) == Some(
                match value_at(before_total, fail) {
                    Some(n) => n,
                    None => 0,
                },
            )
            &&& value_at(last_run, own) == Some(
                match value_at(before_last_run, own) {
                    Some(n) => n,
                    None => 0,
                },
            )
            &&& total.series.dom() == before_total.series.dom().insert(key_of(success)).insert(
                key_of(fail),
            )
            &&& last_run.series.dom() == before_last_run.series.dom().insert(key_of(own))
            &&& forall|i: int|
                0 <= i < e.gauges.len() && i != PROBE_LAST_RUN ==> #[trigger] after.gauges[i]
                    == e.gauges[i]
            &&& after.int_gauges == e.int_gauges
        }),
{
}

/// What is done to the metrics.
pub enum Call {
    /// A service is made known.
    Initialize { service: ServiceView },
    /// A probe of a service is recorded at a time.
    Record { service: ServiceView, outcome: OutcomeView, now: Option<Duration> },
}

/// The registry after a call.
pub open spec fn after_call(e: ExpositionView, call: Call) -> ExpositionView {
    match call {
        Call::Initialize { service } => initialized(e, service),
        Call::Record { service, outcome, now } => recorded(e, service, outcome, now),
    }
}

/// The registry after some calls, for any services and in any order.
pub open spec fn after_calls(e: ExpositionView, calls: Seq<Call>) -> ExpositionView
    decreases calls.len(),
{
    if calls.len() == 0 {
        e
    } else {
        after_call(after_calls(e, calls.drop_last()), calls.last())
    }
}

/// Whether a call records a probe of a service with a result. A service is
/// known by its labels.
pub open spec fn records(call: Call, service: ServiceView, success: bool) -> bool {
    call matches Call::Record { service: probed, outcome, .. } && labels_of(probed) == labels_of(
        service,
    ) && outcome.success == success
}

/// How many of some calls record a probe of a service with a result.
pub open spec fn probes_of(calls: Seq<Call>, service: ServiceView, success: bool) -> nat
    decreases calls.len(),
{
    if calls.len() == 0 {
        0
    } else {
        probes_of(calls.drop_last(), service, success) + if records(calls.last(), service, success) {
            1nat
        } else {
            0nat
        }
    }
}

/// Whether a call records no probe of another service under the key of a
/// counter of this service.
pub open spec fn counts_apart(call: Call, service: ServiceView, success: bool) -> bool {
    match call {
        Call::Initialize { .. } => true,
        Call::Record { service: other, outcome, .. } => labels_of(other) == labels_of(service)
            || key_of(labels_with(other, result_label(outcome.success))) != key_of(
            labels_with(service, result_label(success)),
        ),
    }
}

/// Services with the same labels have the same counters.
proof fn lemma_same_labels(a: ServiceView, b: ServiceView, last: Seq<char>)
    requires
        labels_of(a) == labels_of(b),
    ensures
        labels_with(a, last) == labels_with(b, last),
{
    assert(labels_of(a)[0] == a.name && labels_of(b)[0] == b.name);
    assert(labels_of(a)[1] == a.url.text && labels_of(b)[1] == b.url.text);
}

/// Over any calls, for any services and in any order, each counter grows by the
/// number of probes of its own service with its own result, as long as it does
/// not come to the end of its range and no other service counts under its key.
pub proof fn law_counters_count_probes(
    e: ExpositionView,
    calls: Seq<Call>,
    service: ServiceView,
    success: bool,
)
    requires
        registered(e),
        forall|i: int|
            0 <= i < calls.len() ==> counts_apart(#[trigger] calls[i], service, success),
        count(e, service, success) + probes_of(calls, service, success) <= u64::MAX,
    ensures
        registered(after_calls(e, calls)),
        count(after_calls(e, calls), service, success) == count(e, service, success) + probes_of(
            calls,
            service,
            success,
        ),
    decreases calls.len(),
{
    if calls.len() > 0 {
        let most = calls.drop_last();
        let call = calls.last();
        assert forall|i: int| 0 <= i < most.len() implies counts_apart(
            #[trigger] most[i],
            service,
            success,
        ) by {
            assert(most[i] == calls[i]);
        }
        law_counters_count_probes(e, most, service, success);
        let before = after_calls(e, most);
        assert(calls[calls.len() - 1] == call);
        match call {
            Call::Initialize { service: known } => {
                law_visible_from_start(before, known);
                assert(registered(initialized(before, known)));
            },
            Call::Record { service: probed, outcome, now } => {
                assert(registered(recorded(before, probed, outcome, now)));
                if labels_of(probed) == labels_of(service) {
                    lemma_same_labels(probed, service, result_label(true));
                    lemma_same_labels(probed, service, result_label(false));
                    law_own_series(service);
                }
                if records(call, service, success) {
                    law_counts_once(before, probed, outcome, now);
                } else {
                    law_services_apart(
                        before,
                        probed,
                        outcome,
                        now,
                        key_of(labels_with(service, result_label(success))),
                    );
                }
            },
        }
    }
}

/// The two counters of a service together count its probes.
pub proof fn law_results_add_up(calls: Seq<Call>, service: ServiceView)
    ensures
        probes_of(calls, service, true) + probes_of(calls, service, false) == calls.filter(
            |call: Call| records(call, service, true) || records(call, service, false),
        ).len(),
    decreases calls.len(),
{
    reveal(Seq::filter);
    if calls.len() > 0 {
        law_results_add_up(calls.drop_last(), service);
    }
}

/// Whether every series of a family is filed under the key of its labels.
pub open spec fn filed(f: FamilyState) -> bool {
    forall|key: u64| #[trigger] f.series.contains_key(key) ==> key_of(f.series[key].labels) == key
}

/// Whether every series of a registry is filed under the key of its labels.
pub open spec fn all_filed(e: ExpositionView) -> bool {
    &&& forall|i: int| 0 <= i < e.gauges.len() ==> filed(#[trigger] e.gauges[i])
    &&& forall|i: int| 0 <= i < e.int_gauges.len() ==> filed(#[trigger] e.int_gauges[i])
    &&& forall|i: int| 0 <= i < e.counters.len() ==> filed(#[trigger] e.counters[i])
}

/// Every series is filed under the key of its labels, from the start and after
/// every service and every probe.
pub proof fn law_series_filed(
    version: Seq<char>,
    e: ExpositionView,
    service: ServiceView,
    outcome: OutcomeView,
    now: Option<Duration>,
)
    requires
        registered(e),
        all_filed(e),
    ensures
        all_filed(at_start(version)),
        all_filed(initialized(e, service)),
        all_filed(recorded(e, service, outcome, now)),
{
}

/// The version is there from the start, at 1, and no service or probe changes
/// that.
pub proof fn law_version_stays(
    version: Seq<char>,
    e: ExpositionView,
    service: ServiceView,
    outcome: OutcomeView,
    now: Option<Duration>,
)
    ensures
        registered(at_start(version)),
        value_at(at_start(version).int_gauges[BUILD_INFO as int], seq![version]) == Some(1int),
        at_start(version).int_gauges[BUILD_INFO as int].series[key_of(seq![version])].labels
            == seq![version],
        initialized(e, service).int_gauges == e.int_gauges,
        recorded(e, service, outcome, now).int_gauges == e.int_gauges,
{
}

/// A series that a probe makes carries the labels of its service.
pub proof fn law_new_series_labelled(
    e: ExpositionView,
    service: ServiceView,
    outcome: OutcomeView,
    now: Option<Duration>,
)
    requires
        registered(e),
    ensures
        ({
            let after = recorded(e, service, outcome, now);
            let own = labels_of(service);
            let ttfb = labels_with(service, "ttfb"@);
            let total = labels_with(service, "total"@);
            let result = labels_with(service, result_label(outcome.success));
            &&& forall|i: int|
                0 <= i < 4 && i != PROBE_DURATION && value_at(#[trigger] e.gauges[i], own) is None
                    ==> after.gauges[i].series[key_of(own)].labels == own
            &&& value_at(e.gauges[PROBE_DURATION as int], ttfb) is None
                ==> after.gauges[PROBE_DURATION as int].series[key_of(ttfb)].labels == ttfb
            &&& value_at(e.gauges[PROBE_DURATION as int], total) is None
                ==> after.gauges[PROBE_DURATION as int].series[key_of(total)].labels == total
            &&& value_at(e.counters[PROBE_TOTAL as int], result) is None
                ==> after.counters[PROBE_TOTAL as int].series[key_of(result)].labels == result
        }),
{
    law_own_series(service);
}

/// Every family has a name of its own, and the registry can tell the names
/// apart.
pub proof fn law_families_distinct()
    ensures
        family_names().len() == 6,
        family_names().no_duplicates(),
        forall|i: int, j: int|
            0 <= i < j < family_names().len() ==> name_hash(#[trigger] family_names()[i])
                != name_hash(#[trigger] family_names()[j]),
{
    lemma_names_apart();
}

// ---------------------------------------------------------------------------
// What every call does, series by series.
// ---------------------------------------------------------------------------

/// Whether the series with these labels has this value now, and nothing else of
/// the family has changed. A series that was not there has these labels.
pub open spec fn only_set(
    before: FamilyState,
    after: FamilyState,
    labels: Seq<Seq<char>>,
    value: int,
) -> bool {
    &&& after.description == before.description
    &&& after.series.contains_key(key_of(labels))
    &&& after.series[key_of(labels)].value == value
    &&& after.series[key_of(labels)].labels == if before.series.contains_key(key_of(labels)) {
        before.series[key_of(labels)].labels
    } else {
        labels
    }
    &&& forall|key: u64|
        key != key_of(labels) ==> (#[trigger] after.series.contains_key(key)
            == before.series.contains_key(key))
    &&& forall|key: u64|
        key != key_of(labels) && before.series.contains_key(key) ==> #[trigger] after.series[key]
            == before.series[key]
}

/// The value that a series has, or zero where it is not there.
pub open spec fn value_or_zero(f: FamilyState, labels: Seq<Seq<char>>) -> int {
    if f.series.contains_key(key_of(labels)) {
        f.series[key_of(labels)].value
    } else {
        0
    }
}

/// What a recorded probe does: each gauge of the service is set to what the
/// outcome and the clock say, the counter of the result counts one more, and
/// nothing else changes.
pub proof fn law_record_effect(
    e: ExpositionView,
    service: ServiceView,
    outcome: OutcomeView,
    now: Option<Duration>,
)
    requires
        registered(e),
    ensures
        ({
            let after = recorded(e, service, outcome, now);
            let own = seq![service.name, service.url.text];
            let result = seq![
                service.name,
                service.url.text,
                if outcome.success {
                    "success"@
                } else {
                    "fail"@
                },
            ];
            let count = value_or_zero(e.counters[0], result);
            &&& after.gauges.len() == 4
            &&& after.counters.len() == 1
            &&& after.int_gauges == e.int_gauges
            &&& only_set(
                e.gauges[0],
                after.gauges[0],
                own,
                if outcome.success {
                    1_000_000_000
                } else {
                    0
                },
            )
            &&& only_set(
                e.gauges[2],
                after.gauges[2],
                own,
                match outcome.status {
                    Some(status) => status * 1_000_000_000,
                    None => 0,
                },
            )
            &&& only_set(
                e.gauges[3],
                after.gauges[3],
                own,
                match now {
                    Some(d) => d.nanos as int,
                    None => 0,
                },
            )
            &&& count < u64::MAX ==> only_set(e.counters[0], after.counters[0], result, count + 1)
            &&& count == u64::MAX ==> only_set(e.counters[0], after.counters[0], result, 0)
        }),
{
}

/// What a recorded probe does to the durations: both phases of the service are
/// set, and nothing else changes.
pub proof fn law_record_durations(
    e: ExpositionView,
    service: ServiceView,
    outcome: OutcomeView,
    now: Option<Duration>,
)
    requires
        registered(e),
    ensures
        ({
            let after = recorded(e, service, outcome, now);
            let ttfb = seq![service.name, service.url.text, "ttfb"@];
            let total = seq![service.name, service.url.text, "total"@];
            exists|between: FamilyState|
                #![trigger only_set(between, after.gauges[1], total, outcome.total.nanos as int)]
                only_set(
                    e.gauges[1],
                    between,
                    ttfb,
                    match outcome.ttfb {
                        Some(d) => d.nanos as int,
                        None => 0,
                    },
                ) && only_set(between, after.gauges[1], total, outcome.total.nanos as int)
        }),
{
    let after = recorded(e, service, outcome, now);
    let ttfb = seq![service.name, service.url.text, "ttfb"@];
    let total = seq![service.name, service.url.text, "total"@];
    let value = match outcome.ttfb {
        Some(d) => d.nanos as int,
        None => 0,
    };
    let between = assigned(e.gauges[1], key_of(ttfb), ttfb, value);
    law_own_series(service);
    assert(only_set(e.gauges[1], between, ttfb, value));
    assert(only_set(between, after.gauges[1], total, outcome.total.nanos as int));
}

/// What making a service known does: its two counters and the time of its last
/// run are there, with the value they had or zero, and nothing else changes.
pub proof fn law_initialize_effect(e: ExpositionView, service: ServiceView)
    requires
        registered(e),
    ensures
        ({
            let after = initialized(e, service);
            let own = seq![service.name, service.url.text];
            let success = seq![service.name, service.url.text, "success"@];
            let fail = seq![service.name, service.url.text, "fail"@];
            &&& after.gauges.len() == 4
            &&& after.counters.len() == 1
            &&& after.int_gauges == e.int_gauges
            &&& after.gauges[0] == e.gauges[0]
            &&& after.gauges[1] == e.gauges[1]
            &&& after.gauges[2] == e.gauges[2]
            &&& only_set(e.gauges[3], after.gauges[3], own, value_or_zero(e.gauges[3], own))
            &&& exists|between: FamilyState|
                #![trigger only_set(
                    between,
                    after.counters[0],
                    fail,
                    value_or_zero(e.counters[0], fail),
                )]
                only_set(
                    e.counters[0],
                    between,
                    success,
                    value_or_zero(e.counters[0], success),
                ) && only_set(
                    between,
                    after.counters[0],
                    fail,
                    value_or_zero(e.counters[0], fail),
                )
        }),
{
    let after = initialized(e, service);
    let success = seq![service.name, service.url.text, "success"@];
    let fail = seq![service.name, service.url.text, "fail"@];
    let between = touched(e.counters[0], key_of(success), success);
    law_own_series(service);
    assert(only_set(e.counters[0], between, success, value_or_zero(e.counters[0], success)));
    assert(only_set(between, after.counters[0], fail, value_or_zero(e.counters[0], fail)));
}

/// At the start every family of the exporter is there under its name, with its
/// labels, and of all series there is that of the version alone, at 1.
pub proof fn law_start(version: Seq<char>)
    ensures
        ({
            let e = at_start(version);
            let info = e.int_gauges[0].series;
            &&& registered(e)
            &&& forall|i: int| 0 <= i < 4 ==> (#[trigger] e.gauges[i]).series.dom().len() == 0
            &&& forall|i: int, key: u64|
                0 <= i < 4 ==> !(#[trigger] e.gauges[i].series.contains_key(key))
            &&& forall|key: u64| !(#[trigger] e.counters[0].series.contains_key(key))
            &&& forall|key: u64| #[trigger]
                info.contains_key(key) <==> key == key_of(seq![version])
            &&& info[key_of(seq![version])].value == 1
            &&& info[key_of(seq![version])].labels == seq![version]
        }),
{
}

/// The families by name, by the names of their labels and by their help.
pub proof fn law_families(e: ExpositionView)
    requires
        registered(e),
    ensures
        e.gauges.len() == 4,
        e.counters.len() == 1,
        e.int_gauges.len() == 1,
        e.gauges[0].description.name == "uptime_probe_success"@,
        e.gauges[0].description.labels == seq!["name"@, "url"@],
        e.gauges[1].description.name == "uptime_probe_duration_seconds"@,
        e.gauges[1].description.labels == seq!["name"@, "url"@, "phase"@],
        e.gauges[2].description.name == "uptime_probe_http_status_code"@,
        e.gauges[2].description.labels == seq!["name"@, "url"@],
        e.gauges[3].description.name == "uptime_probe_last_run_timestamp_seconds"@,
        e.gauges[3].description.labels == seq!["name"@, "url"@],
        e.counters[0].description.name == "uptime_probe_total"@,
        e.counters[0].description.labels == seq!["name"@, "url"@, "result"@],
        e.int_gauges[0].description.name == "uptime_build_info"@,
        e.int_gauges[0].description.labels == seq!["version"@],
        e.gauges[0].description.help
            == "Whether the last probe of the service succeeded (1) or failed (0)."@,
        e.gauges[1].description.help
            == "Duration of the last probe in seconds, by phase (ttfb, total). 0 for phases that were never reached."@,
        e.gauges[2].description.help
            == "HTTP status code of the last probe response; 0 if no response was received."@,
        e.gauges[3].description.help
            == "Unix timestamp of the last completed probe for this service."@,
        e.counters[0].description.help
            == "Total number of probes performed, by result (success/fail)."@,
        e.int_gauges[0].description.help == "Build information of uptime-exporter."@,
{
}

/// The key of a series is the hash of the bytes of its label values, one value
/// behind the other: values that join to the same bytes have the same key.
pub proof fn law_keys(a: Seq<char>, b: Seq<char>, c: Seq<char>)
    ensures
        key_of(seq![a]) == fnv(encode_utf8(a)),
        key_of(seq![a, b]) == fnv(encode_utf8(a) + encode_utf8(b)),
        key_of(seq![a, b, c]) == fnv(encode_utf8(a) + encode_utf8(b) + encode_utf8(c)),
{
    let none: Seq<Seq<char>> = seq![];
    assert(label_bytes(none) =~= seq![]);
    assert(seq![a].drop_last() =~= none);
    assert(seq![a, b].drop_last() =~= seq![a]);
    assert(seq![a, b, c].drop_last() =~= seq![a, b]);
    assert(label_bytes(seq![a]) =~= encode_utf8(a));
    assert(label_bytes(seq![a, b]) =~= encode_utf8(a) + encode_utf8(b));
}

/// The hash of no bytes, and that of one byte more.
pub proof fn law_hash(bytes: Seq<u8>, byte: u8)
    ensures
        fnv(Seq::<u8>::empty()) == 0xcbf2_9ce4_8422_2325u64,
        fnv(bytes.push(byte)) == ((fnv(bytes) ^ (byte as u64)) * 0x100_0000_01b3) as u64,
{
    assert(bytes.push(byte).drop_last() =~= bytes);
}

} // verus!
