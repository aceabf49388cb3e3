//! What becomes of each part of the settings and of the configuration, value by
//! value and word by word.
use vstd::prelude::*;

use crate::addr::{ip_addr, socket_addr, IpAddr, SocketAddr};
use crate::addr_laws::{ipv4_text, law_socket_reads_back, socket_text};
use crate::config::{
    default_ranges, defaults_of, first_bad_range, first_refused, in_ranges, loaded, names_of,
    override_of, ranges_problem, raw_names, seconds, service_at, service_of, service_views,
    services_of, settings_of, url_problem, valid_range, ConfigFile, Defaults, DefaultsView,
    RawConfig, RawDefaults, RawService, ServiceConfig, ServiceView, Settings, SettingsView,
};
use crate::config_laws::{
    law_defaults_apply, law_own_settings_win, law_ranges_reported, law_services_in_order,
    lemma_accepted, lemma_default_method,
};
use crate::error::ConfigErrorView;
use crate::method::method_of;
use crate::text::{decimal, quoted, trimmed};
use crate::url::{parsed_view, url_parse, Url, UrlView};

verus! {

// ---------------------------------------------------------------------------
// Values.
// ---------------------------------------------------------------------------

/// A second has a thousand million nanoseconds.
pub proof fn law_seconds(n: u64)
    ensures
        seconds(n).nanos == n * 1_000_000_000,
{
}

/// A status code counts as up where some range holds it, both bounds included,
/// and as down where every range misses it.
pub proof fn law_status_held(ranges: Seq<(u16, u16)>, status: u16)
    ensures
        (exists|i: int|
            0 <= i < ranges.len() && (#[trigger] ranges[i]).0 <= status && status <= ranges[i].1)
            ==> in_ranges(ranges, status),
        (forall|i: int|
            0 <= i < ranges.len() ==> status < (#[trigger] ranges[i]).0 || status > ranges[i].1)
            ==> !in_ranges(ranges, status),
{
    if exists|i: int|
        0 <= i < ranges.len() && (#[trigger] ranges[i]).0 <= status && status <= ranges[i].1 {
        let i = choose|i: int|
            0 <= i < ranges.len() && (#[trigger] ranges[i]).0 <= status && status <= ranges[i].1;
        assert(ranges[i].0 <= status <= ranges[i].1);
    }
}

/// A range more never takes a service down, and a range fewer never brings it
/// up.
pub proof fn law_more_ranges(ranges: Seq<(u16, u16)>, more: Seq<(u16, u16)>, status: u16)
    ensures
        in_ranges(ranges + more, status) <==> in_ranges(ranges, status) || in_ranges(more, status),
{
    let all = ranges + more;
    if in_ranges(all, status) {
        let i = choose|i: int|
            0 <= i < all.len() && (#[trigger] all[i]).0 <= status <= all[i].1;
        if i < ranges.len() {
            assert(ranges[i] == all[i]);
        } else {
            assert(more[i - ranges.len()] == all[i]);
        }
    }
    if in_ranges(ranges, status) {
        let i = choose|i: int|
            0 <= i < ranges.len() && (#[trigger] ranges[i]).0 <= status <= ranges[i].1;
        assert(all[i] == ranges[i]);
    }
    if in_ranges(more, status) {
        let i = choose|i: int|
            0 <= i < more.len() && (#[trigger] more[i]).0 <= status <= more[i].1;
        assert(all[i + ranges.len()] == more[i]);
    }
}

/// The contents of the settings, of the defaults, of a service and of its URL
/// are those of their fields.
pub proof fn law_config_fields(s: Settings, d: Defaults, c: ServiceConfig, u: Url)
    ensures
        s@.config_path == s.config_path@,
        s@.listen_addr == s.listen_addr,
        s@.resolve_override == s.resolve_override,
        d@.interval_seconds == d.interval_seconds,
        d@.timeout_seconds == d.timeout_seconds,
        d@.method == d.method@,
        d@.acceptable_status == d.acceptable_status@,
        d@.follow_redirects == d.follow_redirects,
        d@.resolve_override == d.resolve_override,
        c@.name == c.name@,
        c@.url == c.url@,
        c@.interval == c.interval,
        c@.timeout == c.timeout,
        c@.method == c.method@,
        c@.acceptable_status == c.acceptable_status@,
        c@.follow_redirects == c.follow_redirects,
        c@.resolve_override == c.resolve_override,
        u@.text == u.text@,
        u@.scheme == u.scheme@,
        u.host is None ==> u@.host is None,
        u.host matches Some(h) ==> u@.host == Some(h@),
{
}

/// What the parser hands back is passed on as it is, a list is seen service by
/// service, and names are seen one by one.
pub proof fn law_lists(parsed: Result<Url, String>, list: Seq<ServiceConfig>, seen: Seq<String>)
    ensures
        parsed matches Ok(u) ==> parsed_view(parsed) == Ok::<UrlView, Seq<char>>(u@),
        parsed matches Err(e) ==> parsed_view(parsed) == Err::<UrlView, Seq<char>>(e@),
        service_views(list).len() == list.len(),
        forall|i: int| 0 <= i < list.len() ==> #[trigger] service_views(list)[i] == list[i]@,
        names_of(seen).len() == seen.len(),
        forall|i: int| 0 <= i < seen.len() ==> #[trigger] names_of(seen)[i] == seen[i]@,
{
}

// ---------------------------------------------------------------------------
// Status ranges.
// ---------------------------------------------------------------------------

/// Ranges pass exactly where there is one at least and each lies between 100 and
/// 599 with its low bound first.
pub proof fn law_ranges_pass(name: Seq<char>, ranges: Seq<(u16, u16)>)
    ensures
        ranges_problem(name, ranges) is None <==> ranges.len() > 0 && (forall|i: int|
            0 <= i < ranges.len() ==> 100 <= (#[trigger] ranges[i]).0 && ranges[i].0 <= ranges[i].1
                && ranges[i].1 <= 599),
{
    law_ranges_reported(name, ranges);
}

/// Missing ranges are reported under the name of the service.
pub proof fn law_no_ranges_told(name: Seq<char>)
    ensures
        ranges_problem(name, seq![]) == Some(
            "service "@ + quoted(name) + ": acceptable_status must not be empty"@,
        ),
{
}

/// The first range that does not pass is reported with both its bounds, whatever
/// comes behind it.
pub proof fn law_bad_range_told(name: Seq<char>, ranges: Seq<(u16, u16)>, k: int)
    requires
        0 <= k < ranges.len(),
        ranges[k].0 < 100 || ranges[k].0 > ranges[k].1 || ranges[k].1 > 599,
        forall|i: int|
            0 <= i < k ==> 100 <= (#[trigger] ranges[i]).0 && ranges[i].0 <= ranges[i].1
                && ranges[i].1 <= 599,
    ensures
        ranges_problem(name, ranges) == Some(
            "service "@ + quoted(name) + (": invalid status range ["@ + decimal(ranges[k].0 as nat)
                + ", "@ + decimal(ranges[k].1 as nat) + "] (need 100 <= low <= high <= 599)"@),
        ),
{
    assert(first_bad_range(ranges, k));
    let j = choose|j: int| first_bad_range(ranges, j);
    if j < k {
        assert(100 <= ranges[j].0 && ranges[j].0 <= ranges[j].1 && ranges[j].1 <= 599);
    }
    if k < j {
        assert(valid_range(ranges[k]));
    }
    assert(j == k);
}

// ---------------------------------------------------------------------------
// Overrides.
// ---------------------------------------------------------------------------

/// An override is none where nothing is left of it after trimming, the address
/// with a port that it writes, the bare address that it writes with port zero,
/// or an error that shows it without the white space round it.
pub proof fn law_override_told(raw: Seq<char>)
    ensures
        ({
            let t = trimmed(raw);
            &&& t.len() == 0 ==> override_of(raw) == Ok::<Option<SocketAddr>, Seq<char>>(None)
            &&& t.len() > 0 && socket_addr(t) is Some ==> override_of(raw) == Ok::<
                Option<SocketAddr>,
                Seq<char>,
            >(Some(socket_addr(t)->0))
            &&& t.len() > 0 && socket_addr(t) is None && ip_addr(t) is Some ==> override_of(raw)
                == Ok::<Option<SocketAddr>, Seq<char>>(
                Some(SocketAddr { ip: ip_addr(t)->0, port: 0, scope_id: 0 }),
            )
            &&& t.len() > 0 && socket_addr(t) is None && ip_addr(t) is None ==> override_of(raw)
                == Err::<Option<SocketAddr>, Seq<char>>(
                "expected an IP or IP:PORT (e.g. 192.168.1.10 or 192.168.1.10:443), got "@ + quoted(
                    t,
                ),
            )
        }),
{
}

// ---------------------------------------------------------------------------
// Settings.
// ---------------------------------------------------------------------------

/// The listen address is read from its variable, or from `0.0.0.0:9184` where
/// that is unset; a text that is no address with a port is refused first of all.
pub proof fn law_listen_address(
    config_path: Option<String>,
    listen_addr: Option<String>,
    resolve_override: Option<String>,
)
    ensures
        ({
            let listen = match listen_addr {
                Some(s) => s@,
                None => "0.0.0.0:9184"@,
            };
            let settings = settings_of(config_path, listen_addr, resolve_override);
            &&& settings is Ok ==> socket_addr(listen) == Some(settings->Ok_0.listen_addr)
            &&& socket_addr(listen) is None ==> settings == Err::<SettingsView, ConfigErrorView>(
                ConfigErrorView::InvalidEnv {
                    name: "UPTIME_LISTEN_ADDR"@,
                    value: listen,
                    reason: "not a valid socket address: invalid socket address syntax"@,
                },
            )
        }),
{
}

/// The built-in listen address: port 9184 of every IPv4 address.
proof fn lemma_listen_default()
    ensures
        socket_addr("0.0.0.0:9184"@) == Some(
            SocketAddr { ip: IpAddr::V4(0), port: 9184, scope_id: 0 },
        ),
{
    let a = SocketAddr { ip: IpAddr::V4(0), port: 9184, scope_id: 0 };
    law_socket_reads_back(a);
    reveal(socket_text);
    reveal(ipv4_text);
    reveal_with_fuel(decimal, 5);
    reveal_strlit("0.0.0.0:9184");
    assert(socket_text(a) =~= "0.0.0.0:9184"@);
}

/// The override of the environment is unset, or what its variable writes; a text
/// that writes none is refused with the reason.
pub proof fn law_environment_override(
    config_path: Option<String>,
    listen_addr: Option<String>,
    resolve_override: Option<String>,
)
    requires
        listen_addr matches Some(s) ==> socket_addr(s@) is Some,
    ensures
        ({
            let settings = settings_of(config_path, listen_addr, resolve_override);
            &&& resolve_override is None ==> settings is Ok && settings->Ok_0.resolve_override
                is None
            &&& resolve_override matches Some(s) ==> {
                &&& override_of(s@) is Ok ==> settings is Ok && settings->Ok_0.resolve_override
                    == Some(override_of(s@)->Ok_0)
                &&& override_of(s@) is Err ==> settings == Err::<SettingsView, ConfigErrorView>(
                    ConfigErrorView::InvalidEnv {
                        name: "UPTIME_RESOLVE_OVERRIDE"@,
                        value: s@,
                        reason: override_of(s@)->Err_0,
                    },
                )
            }
        }),
{
    lemma_listen_default();
}

/// Where the listen address is not set, port 9184 of every IPv4 address is
/// listened on.
pub proof fn law_listens_by_default(config_path: Option<String>, resolve_override: Option<String>)
    requires
        settings_of(config_path, None, resolve_override) is Ok,
    ensures
        settings_of(config_path, None, resolve_override)->Ok_0.listen_addr == (SocketAddr {
            ip: IpAddr::V4(0),
            port: 9184,
            scope_id: 0,
        }),
{
    lemma_listen_default();
}

/// The path of the file is that of its variable, or the built-in one.
pub proof fn law_config_path(
    config_path: Option<String>,
    listen_addr: Option<String>,
    resolve_override: Option<String>,
)
    requires
        settings_of(config_path, listen_addr, resolve_override) is Ok,
    ensures
        settings_of(config_path, listen_addr, resolve_override)->Ok_0.config_path
            == match config_path {
            Some(s) => s@,
            None => "/etc/uptime-exporter/config.yaml"@,
        },
{
}

// ---------------------------------------------------------------------------
// Defaults.
// ---------------------------------------------------------------------------

/// The defaults pass exactly where the file's override, its method and its
/// ranges do.
pub proof fn law_defaults_accepted(raw: RawDefaults, env: Option<Option<SocketAddr>>)
    ensures
        defaults_of(raw, env) is Ok <==> {
            &&& raw.resolve_override matches Some(s) ==> override_of(s@) is Ok
            &&& raw.method matches Some(m) ==> method_of(m@) is Ok
            &&& raw.acceptable_status matches Some(ranges) ==> ranges@.len() > 0 && (forall|i: int|
                0 <= i < ranges@.len() ==> 100 <= (#[trigger] ranges@[i]).0 && ranges@[i].0
                    <= ranges@[i].1 && ranges@[i].1 <= 599)
        },
{
    lemma_default_method();
    let ranges = default_ranges(raw);
    law_ranges_reported("<defaults>"@, ranges);
    if raw.acceptable_status is None {
        assert(ranges =~= seq![(200u16, 399u16)]);
        assert(valid_range(ranges[0]));
    }
}

/// Defaults that pass are what the file says, or the built-in values; the
/// override of the environment wins over that of the file.
pub proof fn law_defaults_settled(raw: RawDefaults, env: Option<Option<SocketAddr>>)
    requires
        defaults_of(raw, env) is Ok,
    ensures
        ({
            let d = defaults_of(raw, env)->Ok_0;
            &&& d.interval_seconds == match raw.interval_seconds {
                Some(n) => n,
                None => 30u64,
            }
            &&& d.timeout_seconds == match raw.timeout_seconds {
                Some(n) => n,
                None => 10u64,
            }
            &&& raw.method matches Some(m) ==> method_of(m@) == Ok::<Seq<char>, Seq<char>>(d.method)
            &&& raw.method is None ==> d.method == "GET"@
            &&& raw.acceptable_status matches Some(ranges) ==> d.acceptable_status == ranges@
            &&& raw.acceptable_status is None ==> d.acceptable_status == seq![(200u16, 399u16)]
            &&& d.follow_redirects == match raw.follow_redirects {
                Some(follow) => follow,
                None => true,
            }
            &&& env matches Some(pin) ==> d.resolve_override == pin
            &&& env is None && raw.resolve_override is Some ==> override_of(
                raw.resolve_override->0@,
            ) == Ok::<Option<SocketAddr>, Seq<char>>(d.resolve_override)
            &&& env is None && raw.resolve_override is None ==> d.resolve_override is None
        }),
{
    lemma_default_method();
    assert(raw.acceptable_status is None ==> default_ranges(raw) =~= seq![
        (200u16, 399u16),
    ]);
}

/// The first part of the defaults that does not pass is reported: the override,
/// then the method, then the ranges.
pub proof fn law_defaults_told(raw: RawDefaults, env: Option<Option<SocketAddr>>)
    ensures
        ({
            let bad_override = raw.resolve_override is Some && override_of(
                raw.resolve_override->0@,
            ) is Err;
            let bad_method = raw.method is Some && method_of(raw.method->0@) is Err;
            &&& bad_override ==> defaults_of(raw, env) == Err::<DefaultsView, Seq<char>>(
                "defaults.resolve_override: "@ + override_of(raw.resolve_override->0@)->Err_0,
            )
            &&& !bad_override && bad_method ==> defaults_of(raw, env) == Err::<
                DefaultsView,
                Seq<char>,
            >("defaults.method: "@ + method_of(raw.method->0@)->Err_0)
            &&& !bad_override && !bad_method && raw.acceptable_status is Some && ranges_problem(
                "<defaults>"@,
                raw.acceptable_status->0@,
            ) is Some ==> defaults_of(raw, env) == Err::<DefaultsView, Seq<char>>(
                ranges_problem("<defaults>"@, raw.acceptable_status->0@)->0,
            )
        }),
{
    lemma_default_method();
}

// ---------------------------------------------------------------------------
// Services.
// ---------------------------------------------------------------------------

/// A URL passes exactly where it could be parsed, its scheme is `http` or
/// `https` and it has a host; else the first of these is reported.
pub proof fn law_url_told(name: Seq<char>, raw: Seq<char>, parsed: Result<UrlView, Seq<char>>)
    ensures
        parsed matches Err(e) ==> url_problem(name, raw, parsed) == Some(
            "service "@ + quoted(name) + (": invalid url "@ + quoted(raw) + ": "@ + e),
        ),
        parsed matches Ok(url) ==> {
            let http = url.scheme == "http"@ || url.scheme == "https"@;
            &&& http && url.host is Some ==> url_problem(name, raw, parsed) is None
            &&& !http ==> url_problem(name, raw, parsed) == Some(
                "service "@ + quoted(name) + (": url scheme must be http or https, got "@ + quoted(
                    url.scheme,
                )),
            )
            &&& http && url.host is None ==> url_problem(name, raw, parsed) == Some(
                "service "@ + quoted(name) + (": url "@ + quoted(raw) + " has no host"@),
            )
        },
{
}

/// A service is accepted exactly where its name is not blank and new, its URL
/// passes, its interval and its timeout are not zero, and its method, its ranges
/// and its override pass where it has its own.
pub proof fn law_service_accepted(
    d: DefaultsView,
    earlier: Seq<Seq<char>>,
    svc: RawService,
    parsed: Result<UrlView, Seq<char>>,
)
    ensures
        service_of(d, earlier, svc, parsed) is Ok <==> {
            &&& trimmed(svc.name@).len() > 0
            &&& forall|j: int|
                0 <= j < earlier.len() ==> #[trigger] earlier[j] != trimmed(svc.name@)
            &&& parsed is Ok
            &&& parsed->Ok_0.scheme == "http"@ || parsed->Ok_0.scheme == "https"@
            &&& parsed->Ok_0.host is Some
            &&& svc.interval_seconds matches Some(n) ==> n > 0
            &&& svc.interval_seconds is None ==> d.interval_seconds > 0
            &&& svc.timeout_seconds matches Some(n) ==> n > 0
            &&& svc.timeout_seconds is None ==> d.timeout_seconds > 0
            &&& svc.method matches Some(m) ==> method_of(m@) is Ok
            &&& svc.acceptable_status matches Some(ranges) ==> ranges@.len() > 0 && (forall|i: int|
                0 <= i < ranges@.len() ==> 100 <= (#[trigger] ranges@[i]).0 && ranges@[i].0
                    <= ranges@[i].1 && ranges@[i].1 <= 599)
            &&& svc.resolve_override matches Some(s) ==> override_of(s@) is Ok
        },
{
    let name = trimmed(svc.name@);
    if svc.acceptable_status is Some {
        law_ranges_pass(name, svc.acceptable_status->0@);
    }
    if earlier.contains(name) {
        let j = choose|j: int| 0 <= j < earlier.len() && earlier[j] == name;
        assert(earlier[j] == name);
    }
}

/// An accepted service has what its entry says, and what the defaults say where
/// its entry says nothing: its name without white space round it, the URL as it
/// was parsed, and its times in nanoseconds.
pub proof fn law_service_settled(
    d: DefaultsView,
    earlier: Seq<Seq<char>>,
    svc: RawService,
    parsed: Result<UrlView, Seq<char>>,
)
    requires
        service_of(d, earlier, svc, parsed) is Ok,
    ensures
        ({
            let s = service_of(d, earlier, svc, parsed)->Ok_0;
            &&& s.name == trimmed(svc.name@)
            &&& parsed == Ok::<UrlView, Seq<char>>(s.url)
            &&& svc.interval_seconds matches Some(n) ==> s.interval.nanos == n * 1_000_000_000
            &&& svc.interval_seconds is None ==> s.interval.nanos == d.interval_seconds
                * 1_000_000_000
            &&& svc.timeout_seconds matches Some(n) ==> s.timeout.nanos == n * 1_000_000_000
            &&& svc.timeout_seconds is None ==> s.timeout.nanos == d.timeout_seconds * 1_000_000_000
            &&& svc.method matches Some(m) ==> method_of(m@) == Ok::<Seq<char>, Seq<char>>(s.method)
            &&& svc.method is None ==> s.method == d.method
            &&& svc.acceptable_status matches Some(ranges) ==> s.acceptable_status == ranges@
            &&& svc.acceptable_status is None ==> s.acceptable_status == d.acceptable_status
            &&& svc.follow_redirects matches Some(follow) ==> s.follow_redirects == follow
            &&& svc.follow_redirects is None ==> s.follow_redirects == d.follow_redirects
            &&& svc.resolve_override matches Some(text) ==> override_of(text@) == Ok::<
                Option<SocketAddr>,
                Seq<char>,
            >(s.resolve_override)
            &&& svc.resolve_override is None ==> s.resolve_override == d.resolve_override
        }),
{
}

/// The first rule that a service breaks is reported: a blank name, a name that
/// was there before, the URL, the interval, the timeout, the method, the ranges,
/// the override, in this order.
pub proof fn law_service_told(
    d: DefaultsView,
    earlier: Seq<Seq<char>>,
    svc: RawService,
    parsed: Result<UrlView, Seq<char>>,
)
    ensures
        ({
            let r = service_of(d, earlier, svc, parsed);
            let name = trimmed(svc.name@);
            let about = "service "@ + quoted(name);
            let named = name.len() > 0 && !earlier.contains(name);
            let located = named && url_problem(name, svc.url@, parsed) is None;
            let zero_interval = svc.interval_seconds == Some(0u64) || (svc.interval_seconds is None
                && d.interval_seconds == 0);
            let zero_timeout = svc.timeout_seconds == Some(0u64) || (svc.timeout_seconds is None
                && d.timeout_seconds == 0);
            let timed = located && !zero_interval && !zero_timeout;
            let bad_method = svc.method is Some && method_of(svc.method->0@) is Err;
            let bad_ranges = svc.acceptable_status is Some && ranges_problem(
                name,
                svc.acceptable_status->0@,
            ) is Some;
            let bad_override = svc.resolve_override is Some && override_of(
                svc.resolve_override->0@,
            ) is Err;
            &&& name.len() == 0 ==> r == Err::<ServiceView, Seq<char>>(
                "service with url "@ + quoted(svc.url@) + " has an empty name"@,
            )
            &&& name.len() > 0 && earlier.contains(name) ==> r == Err::<ServiceView, Seq<char>>(
                "duplicate service name "@ + quoted(name)
                    + " — names must be unique (they are Prometheus labels)"@,
            )
            &&& named && url_problem(name, svc.url@, parsed) is Some ==> r == Err::<
                ServiceView,
                Seq<char>,
            >(url_problem(name, svc.url@, parsed)->0)
            &&& located && zero_interval ==> r == Err::<ServiceView, Seq<char>>(
                about + ": interval_seconds must be > 0"@,
            )
            &&& located && !zero_interval && zero_timeout ==> r == Err::<ServiceView, Seq<char>>(
                about + ": timeout_seconds must be > 0"@,
            )
            &&& timed && bad_method ==> r == Err::<ServiceView, Seq<char>>(
                about + (": "@ + method_of(svc.method->0@)->Err_0),
            )
            &&& timed && !bad_method && bad_ranges ==> r == Err::<ServiceView, Seq<char>>(
                ranges_problem(name, svc.acceptable_status->0@)->0,
            )
            &&& timed && !bad_method && !bad_ranges && bad_override ==> r == Err::<
                ServiceView,
                Seq<char>,
            >(about + (": resolve_override: "@ + override_of(svc.resolve_override->0@)->Err_0))
        }),
{
}

// ---------------------------------------------------------------------------
// The whole.
// ---------------------------------------------------------------------------

/// An entry is settled with the defaults, against the names of all entries
/// before it without white space round them, and with what the parser makes of
/// its URL.
pub proof fn law_entry(d: DefaultsView, svcs: Seq<RawService>, i: int, earlier: Seq<Seq<char>>)
    requires
        0 <= i < svcs.len(),
        earlier.len() == i,
        forall|j: int| 0 <= j < i ==> #[trigger] earlier[j] == trimmed(svcs[j].name@),
    ensures
        service_at(d, svcs, i) == service_of(d, earlier, svcs[i], url_parse(svcs[i].url@)),
{
    assert(raw_names(svcs.take(i)) =~= earlier);
}

/// A configuration without services is refused before anything else is looked
/// at; then the first problem of its defaults is reported.
pub proof fn law_configuration_refused(raw: RawConfig, env: Option<Option<SocketAddr>>)
    ensures
        raw.services@.len() == 0 ==> services_of(raw, env) == Err::<Seq<ServiceView>, Seq<char>>(
            "no services configured — add at least one entry under `services:`"@,
        ),
        raw.services@.len() > 0 && defaults_of(raw.defaults, env) is Err ==> services_of(raw, env)
            == Err::<Seq<ServiceView>, Seq<char>>(defaults_of(raw.defaults, env)->Err_0),
{
}

/// The first entry that is refused is the one that is reported, as it is
/// reported for itself.
pub proof fn law_first_refusal_told(raw: RawConfig, env: Option<Option<SocketAddr>>, k: int)
    requires
        defaults_of(raw.defaults, env) is Ok,
        0 <= k < raw.services@.len(),
        service_at(defaults_of(raw.defaults, env)->Ok_0, raw.services@, k) is Err,
        forall|j: int|
            0 <= j < k ==> (#[trigger] service_at(
                defaults_of(raw.defaults, env)->Ok_0,
                raw.services@,
                j,
            )) is Ok,
    ensures
        services_of(raw, env) == Err::<Seq<ServiceView>, Seq<char>>(
            service_at(defaults_of(raw.defaults, env)->Ok_0, raw.services@, k)->Err_0,
        ),
{
    let d = defaults_of(raw.defaults, env)->Ok_0;
    assert(first_refused(d, raw.services@, k));
    let j = choose|j: int| first_refused(d, raw.services@, j);
    if j < k {
        assert(service_at(d, raw.services@, j) is Ok);
    }
    if k < j {
        assert(service_at(d, raw.services@, k) is Ok);
    }
}

/// Where no entry is refused, the services are those of the entries, each in its
/// place.
pub proof fn law_all_settled(raw: RawConfig, env: Option<Option<SocketAddr>>)
    requires
        raw.services@.len() > 0,
        defaults_of(raw.defaults, env) is Ok,
        forall|i: int|
            0 <= i < raw.services@.len() ==> (#[trigger] service_at(
                defaults_of(raw.defaults, env)->Ok_0,
                raw.services@,
                i,
            )) is Ok,
    ensures
        services_of(raw, env) is Ok,
        services_of(raw, env)->Ok_0.len() == raw.services@.len(),
        forall|i: int|
            0 <= i < raw.services@.len() ==> #[trigger] services_of(raw, env)->Ok_0[i]
                == service_at(defaults_of(raw.defaults, env)->Ok_0, raw.services@, i)->Ok_0,
{
    let d = defaults_of(raw.defaults, env)->Ok_0;
    let svcs = raw.services@;
    assert forall|k: int| !first_refused(d, svcs, k) by {
        if 0 <= k < svcs.len() {
            assert(service_at(d, svcs, k) is Ok);
        }
    }
}

/// The service of an accepted configuration at a place is probed as often and
/// waited for as long as its entry says, else as the defaults say, else every
/// thirty seconds and for ten.
pub proof fn law_times_configured(raw: RawConfig, env: Option<Option<SocketAddr>>, i: int)
    requires
        services_of(raw, env) is Ok,
        0 <= i < raw.services@.len(),
    ensures
        ({
            let s = services_of(raw, env)->Ok_0[i];
            let svc = raw.services@[i];
            &&& svc.interval_seconds matches Some(n) ==> s.interval.nanos == n * 1_000_000_000
            &&& svc.interval_seconds is None && raw.defaults.interval_seconds is Some
                ==> s.interval.nanos == raw.defaults.interval_seconds->0 * 1_000_000_000
            &&& svc.interval_seconds is None && raw.defaults.interval_seconds is None
                ==> s.interval.nanos == 30_000_000_000
            &&& svc.timeout_seconds matches Some(n) ==> s.timeout.nanos == n * 1_000_000_000
            &&& svc.timeout_seconds is None && raw.defaults.timeout_seconds is Some
                ==> s.timeout.nanos == raw.defaults.timeout_seconds->0 * 1_000_000_000
            &&& svc.timeout_seconds is None && raw.defaults.timeout_seconds is None
                ==> s.timeout.nanos == 10_000_000_000
        }),
{
    law_own_settings_win(raw, env, i);
    law_defaults_apply(raw, env, i);
}

/// The other settings of the service at a place: what its entry says, else what
/// the defaults say, else the built-in values.
pub proof fn law_settings_configured(raw: RawConfig, env: Option<Option<SocketAddr>>, i: int)
    requires
        services_of(raw, env) is Ok,
        0 <= i < raw.services@.len(),
    ensures
        ({
            let s = services_of(raw, env)->Ok_0[i];
            let svc = raw.services@[i];
            let ranges = match svc.acceptable_status {
                Some(ranges) => ranges@,
                None => match raw.defaults.acceptable_status {
                    Some(ranges) => ranges@,
                    None => seq![(200u16, 399u16)],
                },
            };
            &&& s.name == trimmed(svc.name@)
            &&& url_parse(svc.url@) == Ok::<UrlView, Seq<char>>(s.url)
            &&& s.acceptable_status == ranges
            &&& s.follow_redirects == match svc.follow_redirects {
                Some(follow) => follow,
                None => match raw.defaults.follow_redirects {
                    Some(follow) => follow,
                    None => true,
                },
            }
            &&& method_of(
                match svc.method {
                    Some(m) => m@,
                    None => match raw.defaults.method {
                        Some(m) => m@,
                        None => "GET"@,
                    },
                },
            ) == Ok::<Seq<char>, Seq<char>>(s.method)
            &&& Ok::<Option<SocketAddr>, Seq<char>>(s.resolve_override)
                == match svc.resolve_override {
                Some(text) => override_of(text@),
                None => match env {
                    Some(pin) => Ok(pin),
                    None => match raw.defaults.resolve_override {
                        Some(text) => override_of(text@),
                        None => Ok(None),
                    },
                },
            }
        }),
{
    law_own_settings_win(raw, env, i);
    law_defaults_apply(raw, env, i);
    law_services_in_order(raw, env);
    lemma_accepted(raw, env, i);
    law_defaults_settled(raw.defaults, env);
    let d = defaults_of(raw.defaults, env)->Ok_0;
    let svc = raw.services@[i];
    law_service_settled(
        d,
        raw_names(raw.services@.take(i)),
        svc,
        url_parse(svc.url@),
    );
}

/// A file that cannot be read or that is no configuration is reported with its
/// path and the reason; one that can is settled with the override of the
/// environment, and what is wrong with it is reported as it is.
pub proof fn law_file_told(settings: SettingsView, file: ConfigFile)
    ensures
        file matches ConfigFile::Unreadable(why) ==> loaded(settings, file) == Err::<
            Seq<ServiceView>,
            ConfigErrorView,
        >(ConfigErrorView::Read { path: settings.config_path, source: why@ }),
        file matches ConfigFile::Malformed(why) ==> loaded(settings, file) == Err::<
            Seq<ServiceView>,
            ConfigErrorView,
        >(ConfigErrorView::Parse { path: settings.config_path, source: why@ }),
        file matches ConfigFile::Parsed(raw) ==> {
            let services = services_of(raw, settings.resolve_override);
            &&& services is Ok ==> loaded(settings, file) == Ok::<
                Seq<ServiceView>,
                ConfigErrorView,
            >(services->Ok_0)
            &&& services is Err ==> loaded(settings, file) == Err::<
                Seq<ServiceView>,
                ConfigErrorView,
            >(ConfigErrorView::Invalid(services->Err_0))
        },
{
}

} // verus!
