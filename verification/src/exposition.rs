//! The families and series of a Prometheus registry.
use vstd::prelude::*;
use vstd::utf8::encode_utf8;

use crate::fnv::fnv;

verus! {

/// What describes a family: its name, its help text and the names of its
/// labels.
pub struct Description {
    pub name: Seq<char>,
    pub help: Seq<char>,
    pub labels: Seq<Seq<char>>,
}

/// A series: the values of its labels and its own value.
pub struct Sample {
    pub labels: Seq<Seq<char>>,
    pub value: int,
}

/// A family with its series, each filed under the key of its labels.
pub struct FamilyState {
    pub description: Description,
    pub series: Map<u64, Sample>,
}

/// The families of a registry by kind, in the order in which they were added.
/// The value of a gauge counts billionths, that of an integer gauge or of a
/// counter counts ones.
pub struct ExpositionView {
    pub gauges: Seq<FamilyState>,
    pub int_gauges: Seq<FamilyState>,
    pub counters: Seq<FamilyState>,
}

/// The texts of some labels.
pub open spec fn label_texts(labels: Seq<&str>) -> Seq<Seq<char>> {
    labels.map_values(|s: &str| s@)
}

/// The bytes of some labels, one label behind the other.
pub open spec fn label_bytes(labels: Seq<Seq<char>>) -> Seq<u8>
    decreases labels.len(),
{
    if labels.len() == 0 {
        seq![]
    } else {
        label_bytes(labels.drop_last()) + encode_utf8(labels.last())
    }
}

/// The key under which a family files the series with these label values: the
/// hash of the values, one behind the other, with nothing between them.
pub open spec fn key_of(labels: Seq<Seq<char>>) -> u64 {
    fnv(label_bytes(labels))
}

/// The hash by which a registry knows the name of a family: that of the name
/// and a separator.
pub open spec fn name_hash(name: Seq<char>) -> u64 {
    fnv(encode_utf8(name).push(0xff))
}

/// Whether a character may begin the name of a label.
pub open spec fn begins_label(c: char) -> bool {
    ('a' <= c && c <= 'z') || ('A' <= c && c <= 'Z') || c == '_'
}

/// Whether a text is the name of a label.
pub open spec fn is_label_name(s: Seq<char>) -> bool {
    &&& s.len() > 0
    &&& begins_label(s[0])
    &&& forall|i: int|
        0 <= i < s.len() ==> begins_label(#[trigger] s[i]) || ('0' <= s[i] && s[i] <= '9')
}

/// Whether a text is the name of a family.
pub open spec fn is_family_name(s: Seq<char>) -> bool {
    &&& s.len() > 0
    &&& begins_label(s[0]) || s[0] == ':'
    &&& forall|i: int|
        0 <= i < s.len() ==> begins_label(#[trigger] s[i]) || s[i] == ':' || ('0' <= s[i] && s[i]
            <= '9')
}

/// Whether a family can be described so.
pub open spec fn describable(d: Description) -> bool {
    &&& d.help.len() > 0
    &&& is_family_name(d.name)
    &&& forall|i: int| 0 <= i < d.labels.len() ==> is_label_name(#[trigger] d.labels[i])
    &&& d.labels.no_duplicates()
}

/// Whether one of some families has a name with this hash.
pub open spec fn hash_taken(families: Seq<FamilyState>, hash: u64) -> bool {
    exists|i: int|
        0 <= i < families.len() && name_hash((#[trigger] families[i]).description.name) == hash
}

/// Whether a family of the registry has a name with this hash.
pub open spec fn taken(e: ExpositionView, hash: u64) -> bool {
    ||| hash_taken(e.gauges, hash)
    ||| hash_taken(e.int_gauges, hash)
    ||| hash_taken(e.counters, hash)
}

/// A family without series.
pub open spec fn bare(d: Description) -> FamilyState {
    FamilyState { description: d, series: Map::empty() }
}

/// A family that has a series under a key: the one that is there, or else one
/// with these labels, at zero.
pub open spec fn touched(f: FamilyState, key: u64, labels: Seq<Seq<char>>) -> FamilyState {
    if f.series.contains_key(key) {
        f
    } else {
        FamilyState { series: f.series.insert(key, Sample { labels, value: 0 }), ..f }
    }
}

/// A family whose series under a key has this value.
pub open spec fn assigned(
    f: FamilyState,
    key: u64,
    labels: Seq<Seq<char>>,
    value: int,
) -> FamilyState {
    let t = touched(f, key, labels);
    FamilyState { series: t.series.insert(key, Sample { value, ..t.series[key] }), ..t }
}

/// The value of a counter after one more, which starts over at the end of its
/// range.
pub open spec fn next_count(n: int) -> int {
    if n == u64::MAX {
        0
    } else {
        n + 1
    }
}

/// A family whose series under a key has counted one more.
pub open spec fn counted(f: FamilyState, key: u64, labels: Seq<Seq<char>>) -> FamilyState {
    assigned(f, key, labels, next_count(touched(f, key, labels).series[key].value))
}

/// The registry after a gauge was asked for.
pub open spec fn gauge_touched(
    e: ExpositionView,
    i: int,
    key: u64,
    labels: Seq<Seq<char>>,
) -> ExpositionView {
    ExpositionView { gauges: e.gauges.update(i, touched(e.gauges[i], key, labels)), ..e }
}

/// The registry after a gauge was set.
pub open spec fn gauge_assigned(
    e: ExpositionView,
    i: int,
    key: u64,
    labels: Seq<Seq<char>>,
    value: int,
) -> ExpositionView {
    ExpositionView { gauges: e.gauges.update(i, assigned(e.gauges[i], key, labels, value)), ..e }
}

/// The registry after an integer gauge was set.
pub open spec fn int_gauge_assigned(
    e: ExpositionView,
    i: int,
    key: u64,
    labels: Seq<Seq<char>>,
    value: int,
) -> ExpositionView {
    ExpositionView {
        int_gauges: e.int_gauges.update(i, assigned(e.int_gauges[i], key, labels, value)),
        ..e
    }
}

/// The registry after a counter was asked for.
pub open spec fn counter_touched(
    e: ExpositionView,
    i: int,
    key: u64,
    labels: Seq<Seq<char>>,
) -> ExpositionView {
    ExpositionView { counters: e.counters.update(i, touched(e.counters[i], key, labels)), ..e }
}

/// The registry after a counter has counted one more.
pub open spec fn counter_counted(
    e: ExpositionView,
    i: int,
    key: u64,
    labels: Seq<Seq<char>>,
) -> ExpositionView {
    ExpositionView { counters: e.counters.update(i, counted(e.counters[i], key, labels)), ..e }
}

/// A `prometheus::Registry` with the families that were added to it. The two
/// are held together: they share the series.
#[verifier::external_body]
pub struct Exposition {
    registry: prometheus::Registry,
    gauges: Vec<prometheus::GaugeVec>,
    int_gauges: Vec<prometheus::IntGaugeVec>,
    counters: Vec<prometheus::IntCounterVec>,
}

/// The gauge families of a registry.
pub uninterp spec fn gauge_families(e: Exposition) -> Seq<FamilyState>;

/// The integer gauge families of a registry.
pub uninterp spec fn int_gauge_families(e: Exposition) -> Seq<FamilyState>;

/// The counter families of a registry.
pub uninterp spec fn counter_families(e: Exposition) -> Seq<FamilyState>;

/// The text in which `prometheus` shows families of these three kinds.
pub uninterp spec fn exposed(
    gauges: Seq<FamilyState>,
    int_gauges: Seq<FamilyState>,
    counters: Seq<FamilyState>,
) -> Seq<u8>;

impl View for Exposition {
    type V = ExpositionView;

    open spec fn view(&self) -> ExpositionView {
        ExpositionView {
            gauges: gauge_families(*self),
            int_gauges: int_gauge_families(*self),
            counters: counter_families(*self),
        }
    }
}

impl Exposition {
    /// Calls `prometheus::Registry::new`: a registry without families.
    #[verifier::external_body]
    pub(crate) fn new() -> (e: Exposition)
        ensures
            gauge_families(e) == Seq::<FamilyState>::empty(),
            int_gauge_families(e) == Seq::<FamilyState>::empty(),
            counter_families(e) == Seq::<FamilyState>::empty(),
    {
        Exposition {
            registry: prometheus::Registry::new(),
            gauges: Vec::new(),
            int_gauges: Vec::new(),
            counters: Vec::new(),
        }
    }

    /// Calls `prometheus::GaugeVec::new`, which accepts every description that
    /// is `describable`, and `prometheus::Registry::register`, which refuses a
    /// family exactly where one of the registry has a name with the same hash. A
    /// refusal leaves the registry as it was.
    #[verifier::external_body]
    pub(crate) fn add_gauges(&mut self, name: &str, help: &str, labels: &[&str]) -> (r: Result<
        (),
        String,
    >)
        requires
            describable(Description { name: name@, help: help@, labels: label_texts(labels@) }),
        ensures
            match r {
                Ok(_) => !taken(old(self)@, name_hash(name@)) && final(self)@ == (ExpositionView {
                    gauges: old(self)@.gauges.push(
                        bare(
                            Description { name: name@, help: help@, labels: label_texts(labels@) },
                        ),
                    ),
                    ..old(self)@
                }),
                Err(e) => taken(old(self)@, name_hash(name@)) && final(self)@ == old(self)@ && e@
                    == "Duplicate metrics collector registration attempted"@,
            },
    {
        let family = match prometheus::GaugeVec::new(prometheus::Opts::new(name, help), labels) {
            Ok(family) => family,
            Err(e) => return Err(e.to_string()),
        };
        match self.registry.register(Box::new(family.clone())) {
            Ok(_) => self.gauges.push(family),
            Err(e) => return Err(e.to_string()),
        }
        Ok(())
    }

    /// Calls `prometheus::IntGaugeVec::new`, which accepts every description
    /// that is `describable`, and `prometheus::Registry::register`, which refuses
    /// a family exactly where one of the registry has a name with the same hash.
    /// A refusal leaves the registry as it was.
    #[verifier::external_body]
    pub(crate) fn add_int_gauges(&mut self, name: &str, help: &str, labels: &[&str]) -> (r: Result<
        (),
        String,
    >)
        requires
            describable(Description { name: name@, help: help@, labels: label_texts(labels@) }),
        ensures
            match r {
                Ok(_) => !taken(old(self)@, name_hash(name@)) && final(self)@ == (ExpositionView {
                    int_gauges: old(self)@.int_gauges.push(
                        bare(
                            Description { name: name@, help: help@, labels: label_texts(labels@) },
                        ),
                    ),
                    ..old(self)@
                }),
                Err(e) => taken(old(self)@, name_hash(name@)) && final(self)@ == old(self)@ && e@
                    == "Duplicate metrics collector registration attempted"@,
            },
    {
        let family = match prometheus::IntGaugeVec::new(prometheus::Opts::new(name, help), labels) {
            Ok(family) => family,
            Err(e) => return Err(e.to_string()),
        };
        match self.registry.register(Box::new(family.clone())) {
            Ok(_) => self.int_gauges.push(family),
            Err(e) => return Err(e.to_string()),
        }
        Ok(())
    }

    /// Calls `prometheus::IntCounterVec::new`, which accepts every description
    /// that is `describable`, and `prometheus::Registry::register`, which refuses
    /// a family exactly where one of the registry has a name with the same hash.
    /// A refusal leaves the registry as it was.
    #[verifier::external_body]
    pub(crate) fn add_counters(&mut self, name: &str, help: &str, labels: &[&str]) -> (r: Result<
        (),
        String,
    >)
        requires
            describable(Description { name: name@, help: help@, labels: label_texts(labels@) }),
        ensures
            match r {
                Ok(_) => !taken(old(self)@, name_hash(name@)) && final(self)@ == (ExpositionView {
                    counters: old(self)@.counters.push(
                        bare(
                            Description { name: name@, help: help@, labels: label_texts(labels@) },
                        ),
                    ),
                    ..old(self)@
                }),
                Err(e) => taken(old(self)@, name_hash(name@)) && final(self)@ == old(self)@ && e@
                    == "Duplicate metrics collector registration attempted"@,
            },
    {
        let family = match prometheus::IntCounterVec::new(prometheus::Opts::new(name, help), labels) {
            Ok(family) => family,
            Err(e) => return Err(e.to_string()),
        };
        match self.registry.register(Box::new(family.clone())) {
            Ok(_) => self.counters.push(family),
            Err(e) => return Err(e.to_string()),
        }
        Ok(())
    }

    /// Calls `with_label_values` of a `prometheus::GaugeVec`: it looks the series
    /// up by the hash of its label values and makes it, at zero, where there is
    /// none. It panics where the number of values is not that of the labels.
    #[verifier::external_body]
    pub(crate) fn touch_gauge(&mut self, i: usize, labels: &[&str])
        requires
            i < old(self)@.gauges.len(),
            labels@.len() == old(self)@.gauges[i as int].description.labels.len(),
        ensures
            final(self)@ == gauge_touched(
                old(self)@,
                i as int,
                key_of(label_texts(labels@)),
                label_texts(labels@),
            ),
    {
        self.gauges[i].with_label_values(labels);
    }

    /// Calls `with_label_values` of a `prometheus::GaugeVec`, as `touch_gauge`
    /// does, and `set` of the gauge. The value is `whole` and as many billionths;
    /// the gauge holds it as the floating point number that
    /// `std::time::Duration::as_secs_f64` makes of it.
    #[verifier::external_body]
    pub(crate) fn set_gauge(&mut self, i: usize, labels: &[&str], whole: u64, billionths: u32)
        requires
            i < old(self)@.gauges.len(),
            labels@.len() == old(self)@.gauges[i as int].description.labels.len(),
            billionths < 1_000_000_000,
        ensures
            final(self)@ == gauge_assigned(
                old(self)@,
                i as int,
                key_of(label_texts(labels@)),
                label_texts(labels@),
                whole * 1_000_000_000 + billionths,
            ),
    {
        let value = std::time::Duration::new(whole, billionths).as_secs_f64();
        self.gauges[i].with_label_values(labels).set(value);
    }

    /// Calls `with_label_values` of a `prometheus::IntGaugeVec`, which does what
    /// that of a `prometheus::GaugeVec` does, and `set` of the gauge.
    #[verifier::external_body]
    pub(crate) fn set_int_gauge(&mut self, i: usize, labels: &[&str], value: i64)
        requires
            i < old(self)@.int_gauges.len(),
            labels@.len() == old(self)@.int_gauges[i as int].description.labels.len(),
        ensures
            final(self)@ == int_gauge_assigned(
                old(self)@,
                i as int,
                key_of(label_texts(labels@)),
                label_texts(labels@),
                value as int,
            ),
    {
        self.int_gauges[i].with_label_values(labels).set(value);
    }

    /// Calls `with_label_values` of a `prometheus::IntCounterVec`, which does what
    /// that of a `prometheus::GaugeVec` does.
    #[verifier::external_body]
    pub(crate) fn touch_counter(&mut self, i: usize, labels: &[&str])
        requires
            i < old(self)@.counters.len(),
            labels@.len() == old(self)@.counters[i as int].description.labels.len(),
        ensures
            final(self)@ == counter_touched(
                old(self)@,
                i as int,
                key_of(label_texts(labels@)),
                label_texts(labels@),
            ),
    {
        self.counters[i].with_label_values(labels);
    }

    /// Calls `with_label_values` of a `prometheus::IntCounterVec`, as
    /// `touch_counter` does, and `inc` of the counter, which adds one and wraps
    /// around at the end of a `u64`.
    #[verifier::external_body]
    pub(crate) fn increment(&mut self, i: usize, labels: &[&str])
        requires
            i < old(self)@.counters.len(),
            labels@.len() == old(self)@.counters[i as int].description.labels.len(),
        ensures
            final(self)@ == counter_counted(
                old(self)@,
                i as int,
                key_of(label_texts(labels@)),
                label_texts(labels@),
            ),
    {
        self.counters[i].with_label_values(labels).inc();
    }

    /// Calls `prometheus::Registry::gather` and writes what it gathers with
    /// `prometheus::TextEncoder`, which shows the families by name and the series
    /// of each by labels, and leaves out families without series. Neither can
    /// fail here: each family has a name, and each that is gathered has a series.
    #[verifier::external_body]
    pub(crate) fn encode(&self) -> (r: Result<(Vec<u8>, String), String>)
        ensures
            match r {
                Ok((text, content_type)) => text@ == exposed(
                    gauge_families(*self),
                    int_gauge_families(*self),
                    counter_families(*self),
                ) && content_type@ == "text/plain; version=0.0.4"@,
                Err(_) => false,
            },
    {
        let encoder = prometheus::TextEncoder::new();
        let mut text: Vec<u8> = Vec::new();
        match prometheus::Encoder::encode(&encoder, &self.registry.gather(), &mut text) {
            Ok(_) => Ok((text, prometheus::Encoder::format_type(&encoder).to_owned())),
            Err(e) => Err(e.to_string()),
        }
    }
}

} // verus!
