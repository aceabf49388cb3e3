//! The metrics of the exporter.
//!
//! The names follow the conventions of `blackbox_exporter` under the prefix
//! `uptime_`, so that dashboards and alerts made for it carry over.
use vstd::prelude::*;

use crate::config::{ServiceConfig, ServiceView};
use crate::duration::Duration;
use crate::exposition::{
    bare, counter_counted, counter_touched, describable, exposed, gauge_assigned, gauge_touched,
    int_gauge_assigned, is_family_name, is_label_name, key_of, label_texts, name_hash, taken,
    Description, Exposition, ExpositionView,
};
use crate::family_hashes::{
    lemma_build_info_hash, lemma_probe_duration_hash, lemma_probe_last_run_hash,
    lemma_probe_status_hash, lemma_probe_success_hash, lemma_probe_total_hash,
};
use crate::probe::{OutcomeView, ProbeOutcome};

verus! {

/// Place of the gauges that are 1 if the last probe succeeded (transport and
/// acceptable status), else 0.
pub const PROBE_SUCCESS: usize = 0;

/// Place of the gauges of the time that the last probe took, by phase: `ttfb`
/// (headers received), `total`.
pub const PROBE_DURATION: usize = 1;

/// Place of the gauges of the last HTTP status code; 0 if the probe failed
/// before a response line.
pub const PROBE_STATUS: usize = 2;

/// Place of the gauges of the Unix time of the last completed probe.
pub const PROBE_LAST_RUN: usize = 3;

/// Place of the counters of probes by result (`success`, `fail`).
pub const PROBE_TOTAL: usize = 0;

/// Place of the integer gauge that is always 1 and has the version as a label.
pub const BUILD_INFO: usize = 0;

/// The family of the gauges at `PROBE_SUCCESS`.
pub open spec fn probe_success() -> Description {
    Description {
        name: "uptime_probe_success"@,
        help: "Whether the last probe of the service succeeded (1) or failed (0)."@,
        labels: seq!["name"@, "url"@],
    }
}

/// The family of the gauges at `PROBE_DURATION`.
pub open spec fn probe_duration() -> Description {
    Description {
        name: "uptime_probe_duration_seconds"@,
        help: "Duration of the last probe in seconds, by phase (ttfb, total). 0 for phases that were never reached."@,
        labels: seq!["name"@, "url"@, "phase"@],
    }
}

/// The family of the gauges at `PROBE_STATUS`.
pub open spec fn probe_status() -> Description {
    Description {
        name: "uptime_probe_http_status_code"@,
        help: "HTTP status code of the last probe response; 0 if no response was received."@,
        labels: seq!["name"@, "url"@],
    }
}

/// The family of the gauges at `PROBE_LAST_RUN`.
pub open spec fn probe_last_run() -> Description {
    Description {
        name: "uptime_probe_last_run_timestamp_seconds"@,
        help: "Unix timestamp of the last completed probe for this service."@,
        labels: seq!["name"@, "url"@],
    }
}

/// The family of the counters at `PROBE_TOTAL`.
pub open spec fn probe_total() -> Description {
    Description {
        name: "uptime_probe_total"@,
        help: "Total number of probes performed, by result (success/fail)."@,
        labels: seq!["name"@, "url"@, "result"@],
    }
}

/// The family of the integer gauge at `BUILD_INFO`.
pub open spec fn build_info() -> Description {
    Description {
        name: "uptime_build_info"@,
        help: "Build information of uptime-exporter."@,
        labels: seq!["version"@],
    }
}

/// The names of the families in the order of their registration.
pub open spec fn family_names() -> Seq<Seq<char>> {
    seq![
        probe_success().name,
        probe_duration().name,
        probe_status().name,
        probe_last_run().name,
        probe_total().name,
        build_info().name,
    ]
}

/// Whether a registry holds the families of the exporter, each in its place.
pub open spec fn registered(e: ExpositionView) -> bool {
    &&& e.gauges.len() == 4
    &&& e.gauges[PROBE_SUCCESS as int].description == probe_success()
    &&& e.gauges[PROBE_DURATION as int].description == probe_duration()
    &&& e.gauges[PROBE_STATUS as int].description == probe_status()
    &&& e.gauges[PROBE_LAST_RUN as int].description == probe_last_run()
    &&& e.counters.len() == 1
    &&& e.counters[PROBE_TOTAL as int].description == probe_total()
    &&& e.int_gauges.len() == 1
    &&& e.int_gauges[BUILD_INFO as int].description == build_info()
}

/// The registry before the first service is known: of all series only that
/// with the version is there, at 1.
pub open spec fn at_start(version: Seq<char>) -> ExpositionView {
    int_gauge_assigned(
        ExpositionView {
            gauges: seq![
                bare(probe_success()),
                bare(probe_duration()),
                bare(probe_status()),
                bare(probe_last_run()),
            ],
            int_gauges: seq![bare(build_info())],
            counters: seq![bare(probe_total())],
        },
        BUILD_INFO as int,
        key_of(seq![version]),
        seq![version],
        1,
    )
}

/// The labels of a service.
pub open spec fn labels_of(service: ServiceView) -> Seq<Seq<char>> {
    seq![service.name, service.url.text]
}

/// The labels of a service and one more.
pub open spec fn labels_with(service: ServiceView, last: Seq<char>) -> Seq<Seq<char>> {
    seq![service.name, service.url.text, last]
}

/// The label of a result.
pub open spec fn result_label(success: bool) -> Seq<char> {
    if success {
        "success"@
    } else {
        "fail"@
    }
}

/// The registry after a service was made known: its counters and the time of
/// its last run are there.
pub open spec fn initialized(e: ExpositionView, service: ServiceView) -> ExpositionView {
    let success = labels_with(service, result_label(true));
    let fail = labels_with(service, result_label(false));
    let own = labels_of(service);
    let e = counter_touched(e, PROBE_TOTAL as int, key_of(success), success);
    let e = counter_touched(e, PROBE_TOTAL as int, key_of(fail), fail);
    gauge_touched(e, PROBE_LAST_RUN as int, key_of(own), own)
}

/// Billionths of a second, none where there is no such time.
pub open spec fn time_or_zero(d: Option<Duration>) -> int {
    match d {
        Some(d) => d.nanos as int,
        None => 0,
    }
}

/// Billionths of a flag.
pub open spec fn flag(b: bool) -> int {
    if b {
        1_000_000_000
    } else {
        0
    }
}

/// Billionths of a status code, none where there is none.
pub open spec fn status_or_zero(status: Option<u16>) -> int {
    match status {
        Some(s) => s * 1_000_000_000,
        None => 0,
    }
}

/// The registry after the outcome of a probe was recorded. `now` is the time
/// since the Unix epoch, `None` on a clock before it.
pub open spec fn recorded(
    e: ExpositionView,
    service: ServiceView,
    outcome: OutcomeView,
    now: Option<Duration>,
) -> ExpositionView {
    let own = labels_of(service);
    let ttfb = labels_with(service, "ttfb"@);
    let total = labels_with(service, "total"@);
    let result = labels_with(service, result_label(outcome.success));
    let e = gauge_assigned(e, PROBE_SUCCESS as int, key_of(own), own, flag(outcome.success));
    let e = gauge_assigned(e, PROBE_STATUS as int, key_of(own), own, status_or_zero(outcome.status));
    let e = gauge_assigned(e, PROBE_DURATION as int, key_of(ttfb), ttfb, time_or_zero(outcome.ttfb));
    let e = gauge_assigned(
        e,
        PROBE_DURATION as int,
        key_of(total),
        total,
        outcome.total.nanos as int,
    );
    let e = gauge_assigned(e, PROBE_LAST_RUN as int, key_of(own), own, time_or_zero(now));
    counter_counted(e, PROBE_TOTAL as int, key_of(result), result)
}

/// The names of the labels are names of labels, each of its own.
proof fn lemma_label_names()
    ensures
        is_label_name("name"@),
        is_label_name("url"@),
        is_label_name("phase"@),
        is_label_name("result"@),
        is_label_name("version"@),
        "name"@ != "url"@,
        "name"@ != "phase"@,
        "name"@ != "result"@,
        "url"@ != "phase"@,
        "url"@ != "result"@,
{
    reveal_strlit("name");
    reveal_strlit("url");
    reveal_strlit("phase");
    reveal_strlit("result");
    reveal_strlit("version");
    assert("name"@.len() == 4);
    assert("url"@.len() == 3);
    assert("phase"@.len() == 5);
    assert("result"@.len() == 6);
}

/// The families can be described as they are.
proof fn lemma_describable()
    ensures
        describable(probe_success()),
        describable(probe_duration()),
        describable(probe_status()),
        describable(probe_last_run()),
        describable(probe_total()),
        describable(build_info()),
{
    lemma_label_names();
    assert(describable(probe_success())) by {
        reveal_strlit("uptime_probe_success");
        reveal_strlit("Whether the last probe of the service succeeded (1) or failed (0).");
        assert(is_family_name(probe_success().name));
    }
    assert(describable(probe_duration())) by {
        reveal_strlit("uptime_probe_duration_seconds");
        reveal_strlit("Duration of the last probe in seconds, by phase (ttfb, total). 0 for phases that were never reached.");
        assert(is_family_name(probe_duration().name));
    }
    assert(describable(probe_status())) by {
        reveal_strlit("uptime_probe_http_status_code");
        reveal_strlit("HTTP status code of the last probe response; 0 if no response was received.");
        assert(is_family_name(probe_status().name));
    }
    assert(describable(probe_last_run())) by {
        reveal_strlit("uptime_probe_last_run_timestamp_seconds");
        reveal_strlit("Unix timestamp of the last completed probe for this service.");
        assert(is_family_name(probe_last_run().name));
    }
    assert(describable(probe_total())) by {
        reveal_strlit("uptime_probe_total");
        reveal_strlit("Total number of probes performed, by result (success/fail).");
        assert(is_family_name(probe_total().name));
    }
    assert(describable(build_info())) by {
        reveal_strlit("uptime_build_info");
        reveal_strlit("Build information of uptime-exporter.");
        assert(is_family_name(build_info().name));
    }
}

/// Whether a registry holds the first `k` families of the exporter, without
/// series.
spec fn holds_first(e: ExpositionView, k: int) -> bool {
    let gauges = seq![
        bare(probe_success()),
        bare(probe_duration()),
        bare(probe_status()),
        bare(probe_last_run()),
    ];
    &&& e.gauges =~= gauges.take(
        if k < 4 {
            k
        } else {
            4
        },
    )
    &&& e.counters =~= if k < 5 {
        seq![]
    } else {
        seq![bare(probe_total())]
    }
    &&& e.int_gauges =~= if k < 6 {
        seq![]
    } else {
        seq![bare(build_info())]
    }
}

/// The hashes of the names tell the families apart.
pub proof fn lemma_names_apart()
    ensures
        forall|i: int, j: int|
            0 <= i < j < family_names().len() ==> name_hash(#[trigger] family_names()[i])
                != name_hash(#[trigger] family_names()[j]),
{
    lemma_probe_success_hash();
    lemma_probe_duration_hash();
    lemma_probe_status_hash();
    lemma_probe_last_run_hash();
    lemma_probe_total_hash();
    lemma_build_info_hash();
}

/// A registry with the first families does not refuse the next.
proof fn lemma_free(e: ExpositionView, k: int)
    requires
        0 <= k < 6,
        holds_first(e, k),
    ensures
        !taken(e, name_hash(family_names()[k])),
{
    lemma_names_apart();
    let hash = name_hash(family_names()[k]);
    assert forall|i: int| 0 <= i < e.gauges.len() implies name_hash(
        (#[trigger] e.gauges[i]).description.name,
    ) != hash by {
        assert(e.gauges[i].description.name == family_names()[i]);
    }
    assert forall|i: int| 0 <= i < e.counters.len() implies name_hash(
        (#[trigger] e.counters[i]).description.name,
    ) != hash by {
        assert(e.counters[i].description.name == family_names()[4]);
    }
}

/// Why there are no metrics.
#[derive(Debug)]
pub struct MetricsError {
    pub message: String,
}

/// The metrics of the exporter.
pub struct Metrics {
    exposition: Exposition,
}

impl View for Metrics {
    type V = ExpositionView;

    closed spec fn view(&self) -> ExpositionView {
        self.exposition@
    }
}

/// Calls `std::time::SystemTime::now` and `duration_since` with the Unix epoch:
/// the time since then, `None` where the clock is before it. What the clock
/// shows is left open.
#[verifier::external_body]
fn since_epoch() -> (now: Option<Duration>)
    ensures
        now matches Some(d) ==> d.in_range(),
{
    match std::time::SystemTime::now().duration_since(std::time::UNIX_EPOCH) {
        Ok(d) => Some(Duration { nanos: d.as_nanos() }),
        Err(_) => None,
    }
}

impl Metrics {
    /// Whether the families of the exporter are registered.
    pub open spec fn wf(&self) -> bool {
        registered(self@)
    }

    /// Sets a gauge to a time in seconds.
    fn set_time(&mut self, i: usize, labels: &[&str], d: Duration)
        requires
            i < old(self)@.gauges.len(),
            labels@.len() == old(self)@.gauges[i as int].description.labels.len(),
            d.in_range(),
        ensures
            final(self)@ == gauge_assigned(
                old(self)@,
                i as int,
                key_of(label_texts(labels@)),
                label_texts(labels@),
                d.nanos as int,
            ),
    {
        let whole: u64 = d.as_secs();
        let billionths: u32 = d.subsec_nanos();
        self.exposition.set_gauge(i, labels, whole, billionths);
    }

    /// Registers the families of the exporter, which the registry never
    /// refuses, and sets the gauge with the version.
    pub fn new(version: &str) -> (r: Result<Metrics, MetricsError>)
        ensures
            match r {
                Ok(m) => m.wf() && m@ == at_start(version@),
                Err(_) => false,
            },
    {
        proof {
            lemma_describable();
        }
        let mut e = Exposition::new();
        let labels = ["name", "url"];
        proof {
            lemma_free(e@, 0);
            assert(label_texts(labels@) =~= probe_success().labels);
        }
        match e.add_gauges(
            "uptime_probe_success",
            "Whether the last probe of the service succeeded (1) or failed (0).",
            &labels,
        ) {
            Ok(_) => {},
            Err(message) => return Err(MetricsError { message }),
        }
        assert(holds_first(e@, 1));
        let labels = ["name", "url", "phase"];
        proof {
            lemma_free(e@, 1);
            assert(label_texts(labels@) =~= probe_duration().labels);
        }
        match e.add_gauges(
            "uptime_probe_duration_seconds",
            "Duration of the last probe in seconds, by phase (ttfb, total). 0 for phases that were never reached.",
            &labels,
        ) {
            Ok(_) => {},
            Err(message) => return Err(MetricsError { message }),
        }
        assert(holds_first(e@, 2));
        let labels = ["name", "url"];
        proof {
            lemma_free(e@, 2);
            assert(label_texts(labels@) =~= probe_status().labels);
        }
        match e.add_gauges(
            "uptime_probe_http_status_code",
            "HTTP status code of the last probe response; 0 if no response was received.",
            &labels,
        ) {
            Ok(_) => {},
            Err(message) => return Err(MetricsError { message }),
        }
        assert(holds_first(e@, 3));
        let labels = ["name", "url"];
        proof {
            lemma_free(e@, 3);
            assert(label_texts(labels@) =~= probe_last_run().labels);
        }
        match e.add_gauges(
            "uptime_probe_last_run_timestamp_seconds",
            "Unix timestamp of the last completed probe for this service.",
            &labels,
        ) {
            Ok(_) => {},
            Err(message) => return Err(MetricsError { message }),
        }
        assert(holds_first(e@, 4));
        let labels = ["name", "url", "result"];
        proof {
            lemma_free(e@, 4);
            assert(label_texts(labels@) =~= probe_total().labels);
        }
        match e.add_counters(
            "uptime_probe_total",
            "Total number of probes performed, by result (success/fail).",
            &labels,
        ) {
            Ok(_) => {},
            Err(message) => return Err(MetricsError { message }),
        }
        assert(holds_first(e@, 5));
        let labels = ["version"];
        proof {
            lemma_free(e@, 5);
            assert(label_texts(labels@) =~= build_info().labels);
        }
        match e.add_int_gauges(
            "uptime_build_info",
            "Build information of uptime-exporter.",
            &labels,
        ) {
            Ok(_) => {},
            Err(message) => return Err(MetricsError { message }),
        }
        assert(holds_first(e@, 6));
        let labels = [version];
        assert(label_texts(labels@) =~= seq![version@]);
        assert(e@.gauges =~= at_start(version@).gauges);
        e.set_int_gauge(BUILD_INFO, &labels, 1);
        Ok(Metrics { exposition: e })
    }

    /// Makes the counters and the time of the last run of a service visible, so
    /// that it is there from the first scrape; they stay at zero until its first
    /// probe.
    pub fn initialize_service(&mut self, service: &ServiceConfig)
        requires
            old(self).wf(),
        ensures
            final(self).wf(),
            final(self)@ == initialized(old(self)@, service@),
    {
        let name = service.name.as_str();
        let url = service.url.text.as_str();
        let success = [name, url, "success"];
        let fail = [name, url, "fail"];
        let own = [name, url];
        assert(label_texts(success@) =~= labels_with(service@, "success"@));
        assert(label_texts(fail@) =~= labels_with(service@, "fail"@));
        assert(label_texts(own@) =~= labels_of(service@));
        self.exposition.touch_counter(PROBE_TOTAL, &success);
        self.exposition.touch_counter(PROBE_TOTAL, &fail);
        self.exposition.touch_gauge(PROBE_LAST_RUN, &own);
    }

    /// Records the outcome of a probe at a time: the time since the Unix epoch,
    /// `None` on a clock before it.
    pub fn record_at(
        &mut self,
        service: &ServiceConfig,
        outcome: &ProbeOutcome,
        now: Option<Duration>,
    )
        requires
            old(self).wf(),
            outcome@.in_range(),
            now matches Some(d) ==> d.in_range(),
        ensures
            final(self).wf(),
            final(self)@ == recorded(old(self)@, service@, outcome@, now),
    {
        let name = service.name.as_str();
        let url = service.url.text.as_str();
        let zero = Duration { nanos: 0 };
        let success: u64 = if outcome.success {
            1
        } else {
            0
        };
        let status: u64 = match outcome.status {
            Some(s) => s as u64,
            None => 0,
        };
        let ttfb = match outcome.ttfb {
            Some(d) => d,
            None => zero,
        };
        let last_run = match now {
            Some(d) => d,
            None => zero,
        };
        let result = if outcome.success {
            "success"
        } else {
            "fail"
        };
        let own = [name, url];
        let to_first_byte = [name, url, "ttfb"];
        let in_total = [name, url, "total"];
        let by_result = [name, url, result];
        assert(label_texts(own@) =~= labels_of(service@));
        assert(label_texts(to_first_byte@) =~= labels_with(service@, "ttfb"@));
        assert(label_texts(in_total@) =~= labels_with(service@, "total"@));
        assert(label_texts(by_result@) =~= labels_with(service@, result_label(outcome.success)));
        self.exposition.set_gauge(PROBE_SUCCESS, &own, success, 0);
        self.exposition.set_gauge(PROBE_STATUS, &own, status, 0);
        self.set_time(PROBE_DURATION, &to_first_byte, ttfb);
        self.set_time(PROBE_DURATION, &in_total, outcome.total);
        self.set_time(PROBE_LAST_RUN, &own, last_run);
        self.exposition.increment(PROBE_TOTAL, &by_result);
    }

    /// Records the outcome of a probe at the present time.
    pub fn record(&mut self, service: &ServiceConfig, outcome: &ProbeOutcome)
        requires
            old(self).wf(),
            outcome@.in_range(),
        ensures
            final(self).wf(),
            exists|now: Option<Duration>|
                (now matches Some(d) ==> d.in_range()) && #[trigger] recorded(
                    old(self)@,
                    service@,
                    outcome@,
                    now,
                ) == final(self)@,
    {
        let now = since_epoch();
        self.record_at(service, outcome, now);
    }

    /// The metrics in the Prometheus text format, and its content type.
    pub fn encode(&self) -> (r: Result<(Vec<u8>, String), MetricsError>)
        ensures
            match r {
                Ok((text, content_type)) => text@ == exposed(
                    self@.gauges,
                    self@.int_gauges,
                    self@.counters,
                ) && content_type@ == "text/plain; version=0.0.4"@,
                Err(_) => false,
            },
    {
        match self.exposition.encode() {
            Ok(encoded) => Ok(encoded),
            Err(message) => Err(MetricsError { message }),
        }
    }
}

} // verus!
