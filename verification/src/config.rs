//! Configuration: merging and validation.
//!
//! Two sources, highest precedence first:
//! 1. environment variables, for the settings of the process;
//! 2. the configuration file, for the list of services and their defaults.
//!
//! Everything is checked before anything is probed: the first rule that a
//! configuration breaks is reported and nothing of it is used.
use vstd::prelude::*;

use crate::addr::{ip_addr, parse_ip, parse_socket, socket_addr, SocketAddr};
use crate::duration::Duration;
use crate::error::{ConfigError, ConfigErrorView};
use crate::method::{method_of, parse_method};
use crate::text::{chars_of, decimal, decimal_text, quote, quoted, trim, trimmed};
use crate::url::{parse_url, parsed_view, url_parse, Url, UrlView};

verus! {

/// Fallbacks for what neither a service nor the file's defaults set.
pub const DEFAULT_INTERVAL_SECONDS: u64 = 30;

pub const DEFAULT_TIMEOUT_SECONDS: u64 = 10;

pub const DEFAULT_METHOD: &'static str = "GET";

pub const DEFAULT_STATUS_LOW: u16 = 200;

pub const DEFAULT_STATUS_HIGH: u16 = 399;

pub const DEFAULT_FOLLOW_REDIRECTS: bool = true;

pub const DEFAULT_CONFIG_PATH: &'static str = "/etc/uptime-exporter/config.yaml";

pub const DEFAULT_LISTEN_ADDR: &'static str = "0.0.0.0:9184";

// ---------------------------------------------------------------------------
// The file as it is written: everything optional, so that defaults apply.
// ---------------------------------------------------------------------------

/// The configuration file.
#[derive(Debug)]
pub struct RawConfig {
    pub defaults: RawDefaults,
    pub services: Vec<RawService>,
}

/// The file's defaults for all services.
#[derive(Debug)]
pub struct RawDefaults {
    pub interval_seconds: Option<u64>,
    pub timeout_seconds: Option<u64>,
    pub method: Option<String>,
    pub acceptable_status: Option<Vec<(u16, u16)>>,
    pub follow_redirects: Option<bool>,
    pub resolve_override: Option<String>,
}

/// One service of the file.
#[derive(Debug)]
pub struct RawService {
    pub name: String,
    pub url: String,
    pub interval_seconds: Option<u64>,
    pub timeout_seconds: Option<u64>,
    pub method: Option<String>,
    pub acceptable_status: Option<Vec<(u16, u16)>>,
    pub follow_redirects: Option<bool>,
    pub resolve_override: Option<String>,
}

impl Default for RawDefaults {
    fn default() -> (d: RawDefaults)
        ensures
            d.interval_seconds is None,
            d.timeout_seconds is None,
            d.method is None,
            d.acceptable_status is None,
            d.follow_redirects is None,
            d.resolve_override is None,
    {
        RawDefaults {
            interval_seconds: None,
            timeout_seconds: None,
            method: None,
            acceptable_status: None,
            follow_redirects: None,
            resolve_override: None,
        }
    }
}

// ---------------------------------------------------------------------------
// Resolved and validated.
// ---------------------------------------------------------------------------

/// The settings of the process, from its environment.
#[derive(Debug)]
pub struct Settings {
    pub config_path: String,
    pub listen_addr: SocketAddr,
    /// `None` is unset, and the file's default applies; `Some(None)` switches
    /// pinning off; `Some(Some(addr))` pins every service without an override
    /// of its own.
    pub resolve_override: Option<Option<SocketAddr>>,
}

/// The contents of a `Settings`.
pub struct SettingsView {
    pub config_path: Seq<char>,
    pub listen_addr: SocketAddr,
    pub resolve_override: Option<Option<SocketAddr>>,
}

impl View for Settings {
    type V = SettingsView;

    open spec fn view(&self) -> SettingsView {
        SettingsView {
            config_path: self.config_path@,
            listen_addr: self.listen_addr,
            resolve_override: self.resolve_override,
        }
    }
}

impl Clone for Settings {
    fn clone(&self) -> (r: Settings)
        ensures
            r@ == self@,
            r.config_path@ == self.config_path@,
            r.listen_addr == self.listen_addr,
            r.resolve_override == self.resolve_override,
    {
        Settings {
            config_path: self.config_path.clone(),
            listen_addr: self.listen_addr,
            resolve_override: self.resolve_override,
        }
    }
}

/// What applies to a service that does not say otherwise.
#[derive(Debug)]
pub struct Defaults {
    pub interval_seconds: u64,
    pub timeout_seconds: u64,
    pub method: String,
    pub acceptable_status: Vec<(u16, u16)>,
    pub follow_redirects: bool,
    pub resolve_override: Option<SocketAddr>,
}

/// The contents of a `Defaults`.
pub struct DefaultsView {
    pub interval_seconds: u64,
    pub timeout_seconds: u64,
    pub method: Seq<char>,
    pub acceptable_status: Seq<(u16, u16)>,
    pub follow_redirects: bool,
    pub resolve_override: Option<SocketAddr>,
}

impl View for Defaults {
    type V = DefaultsView;

    open spec fn view(&self) -> DefaultsView {
        DefaultsView {
            interval_seconds: self.interval_seconds,
            timeout_seconds: self.timeout_seconds,
            method: self.method@,
            acceptable_status: self.acceptable_status@,
            follow_redirects: self.follow_redirects,
            resolve_override: self.resolve_override,
        }
    }
}

/// One service to probe, with everything settled.
#[derive(Debug)]
pub struct ServiceConfig {
    pub name: String,
    pub url: Url,
    pub interval: Duration,
    pub timeout: Duration,
    /// The request method, in upper case.
    pub method: String,
    /// Inclusive `(low, high)` ranges of the HTTP status codes that count as up.
    pub acceptable_status: Vec<(u16, u16)>,
    pub follow_redirects: bool,
    /// Pins the resolution of the URL's host to a fixed address. The port of the
    /// URL always wins over the port given here.
    pub resolve_override: Option<SocketAddr>,
}

/// The contents of a `ServiceConfig`.
pub struct ServiceView {
    pub name: Seq<char>,
    pub url: UrlView,
    pub interval: Duration,
    pub timeout: Duration,
    pub method: Seq<char>,
    pub acceptable_status: Seq<(u16, u16)>,
    pub follow_redirects: bool,
    pub resolve_override: Option<SocketAddr>,
}

impl View for ServiceConfig {
    type V = ServiceView;

    open spec fn view(&self) -> ServiceView {
        ServiceView {
            name: self.name@,
            url: self.url@,
            interval: self.interval,
            timeout: self.timeout,
            method: self.method@,
            acceptable_status: self.acceptable_status@,
            follow_redirects: self.follow_redirects,
            resolve_override: self.resolve_override,
        }
    }
}

impl Clone for ServiceConfig {
    fn clone(&self) -> (r: ServiceConfig)
        ensures
            r@ == self@,
            r.name@ == self.name@,
            r.url@ == self.url@,
            r.interval == self.interval,
            r.timeout == self.timeout,
            r.method@ == self.method@,
            r.acceptable_status@ == self.acceptable_status@,
            r.follow_redirects == self.follow_redirects,
            r.resolve_override == self.resolve_override,
    {
        ServiceConfig {
            name: self.name.clone(),
            url: self.url.clone(),
            interval: self.interval,
            timeout: self.timeout,
            method: self.method.clone(),
            acceptable_status: copy_ranges(&self.acceptable_status),
            follow_redirects: self.follow_redirects,
            resolve_override: self.resolve_override,
        }
    }
}

// ---------------------------------------------------------------------------
// The rules.
// ---------------------------------------------------------------------------

/// Whether a status code lies in one of the ranges.
pub open spec fn in_ranges(ranges: Seq<(u16, u16)>, status: u16) -> bool {
    exists|i: int| 0 <= i < ranges.len() && (#[trigger] ranges[i]).0 <= status <= ranges[i].1
}

/// A range of HTTP status codes that is not empty.
pub open spec fn valid_range(r: (u16, u16)) -> bool {
    100 <= r.0 <= r.1 <= 599
}

/// Acceptable status ranges that can be used: at least one, all of them valid.
pub open spec fn valid_ranges(ranges: Seq<(u16, u16)>) -> bool {
    &&& ranges.len() > 0
    &&& forall|i: int| 0 <= i < ranges.len() ==> valid_range(#[trigger] ranges[i])
}

/// Whether `i` is the first range that is not valid.
pub open spec fn first_bad_range(ranges: Seq<(u16, u16)>, i: int) -> bool {
    &&& 0 <= i < ranges.len()
    &&& !valid_range(ranges[i])
    &&& forall|j: int| 0 <= j < i ==> valid_range(#[trigger] ranges[j])
}

/// A message about a service.
pub open spec fn service_text(name: Seq<char>, rest: Seq<char>) -> Seq<char> {
    "service "@ + quoted(name) + rest
}

/// What is wrong with the acceptable status ranges of a service.
pub open spec fn ranges_problem(name: Seq<char>, ranges: Seq<(u16, u16)>) -> Option<Seq<char>> {
    if ranges.len() == 0 {
        Some(service_text(name, ": acceptable_status must not be empty"@))
    } else if exists|i: int| first_bad_range(ranges, i) {
        let bad = ranges[choose|i: int| first_bad_range(ranges, i)];
        Some(
            service_text(
                name,
                ": invalid status range ["@ + decimal(bad.0 as nat) + ", "@ + decimal(bad.1 as nat)
                    + "] (need 100 <= low <= high <= 599)"@,
            ),
        )
    } else {
        None
    }
}

/// The address that an override text pins to: none where it is blank, an
/// address with a port, or a bare address with port zero.
pub open spec fn override_of(raw: Seq<char>) -> Result<Option<SocketAddr>, Seq<char>> {
    let text = trimmed(raw);
    if text.len() == 0 {
        Ok(None)
    } else if socket_addr(text) is Some {
        Ok(socket_addr(text))
    } else if ip_addr(text) is Some {
        Ok(Some(SocketAddr { ip: ip_addr(text)->0, port: 0, scope_id: 0 }))
    } else {
        Err(
            "expected an IP or IP:PORT (e.g. 192.168.1.10 or 192.168.1.10:443), got "@ + quoted(
                text,
            ),
        )
    }
}

/// The settings that the three variables give; a variable that is unset is
/// `None`.
pub open spec fn settings_of(
    config_path: Option<String>,
    listen_addr: Option<String>,
    resolve_override: Option<String>,
) -> Result<SettingsView, ConfigErrorView> {
    let listen = match listen_addr {
        Some(s) => s@,
        None => DEFAULT_LISTEN_ADDR@,
    };
    if socket_addr(listen) is None {
        Err(
            ConfigErrorView::InvalidEnv {
                name: "UPTIME_LISTEN_ADDR"@,
                value: listen,
                reason: "not a valid socket address: invalid socket address syntax"@,
            },
        )
    } else if resolve_override is Some && override_of(resolve_override->0@) is Err {
        Err(
            ConfigErrorView::InvalidEnv {
                name: "UPTIME_RESOLVE_OVERRIDE"@,
                value: resolve_override->0@,
                reason: override_of(resolve_override->0@)->Err_0,
            },
        )
    } else {
        Ok(
            SettingsView {
                config_path: match config_path {
                    Some(s) => s@,
                    None => DEFAULT_CONFIG_PATH@,
                },
                listen_addr: socket_addr(listen)->0,
                resolve_override: match resolve_override {
                    Some(s) => Some(override_of(s@)->Ok_0),
                    None => None,
                },
            },
        )
    }
}

/// The pinned address that the file has for services without an override of
/// their own.
pub open spec fn file_override(raw: RawDefaults) -> Result<Option<SocketAddr>, Seq<char>> {
    match raw.resolve_override {
        Some(s) => override_of(s@),
        None => Ok(None),
    }
}

/// The pinned address for services without an override of their own: the
/// environment's where it is set, else the file's. The file's has to be an
/// address either way.
pub open spec fn default_override(
    raw: RawDefaults,
    env: Option<Option<SocketAddr>>,
) -> Result<Option<SocketAddr>, Seq<char>> {
    if file_override(raw) is Err {
        file_override(raw)
    } else {
        match env {
            Some(pin) => Ok(pin),
            None => file_override(raw),
        }
    }
}

/// The method for services without one of their own.
pub open spec fn default_method(raw: RawDefaults) -> Result<Seq<char>, Seq<char>> {
    method_of(
        match raw.method {
            Some(m) => m@,
            None => DEFAULT_METHOD@,
        },
    )
}

/// The acceptable status ranges for services without any of their own.
pub open spec fn default_ranges(raw: RawDefaults) -> Seq<(u16, u16)> {
    match raw.acceptable_status {
        Some(ranges) => ranges@,
        None => seq![(DEFAULT_STATUS_LOW, DEFAULT_STATUS_HIGH)],
    }
}

/// The defaults that the file and the environment give, or what is wrong with
/// them.
pub open spec fn defaults_of(
    raw: RawDefaults,
    env: Option<Option<SocketAddr>>,
) -> Result<DefaultsView, Seq<char>> {
    let pin = default_override(raw, env);
    let method = default_method(raw);
    let ranges = default_ranges(raw);
    let problem = ranges_problem("<defaults>"@, ranges);
    if pin is Err {
        Err("defaults.resolve_override: "@ + pin->Err_0)
    } else if method is Err {
        Err("defaults.method: "@ + method->Err_0)
    } else if problem is Some {
        Err(problem->0)
    } else {
        Ok(
            DefaultsView {
                interval_seconds: raw.interval_seconds.unwrap_or(DEFAULT_INTERVAL_SECONDS),
                timeout_seconds: raw.timeout_seconds.unwrap_or(DEFAULT_TIMEOUT_SECONDS),
                method: method->Ok_0,
                acceptable_status: ranges,
                follow_redirects: raw.follow_redirects.unwrap_or(DEFAULT_FOLLOW_REDIRECTS),
                resolve_override: pin->Ok_0,
            },
        )
    }
}

/// What is wrong with a service's URL, given what the URL parser made of it.
pub open spec fn url_problem(
    name: Seq<char>,
    raw: Seq<char>,
    parsed: Result<UrlView, Seq<char>>,
) -> Option<Seq<char>> {
    match parsed {
        Err(e) => Some(service_text(name, ": invalid url "@ + quoted(raw) + ": "@ + e)),
        Ok(url) => if url.scheme != "http"@ && url.scheme != "https"@ {
            Some(
                service_text(name, ": url scheme must be http or https, got "@ + quoted(url.scheme)),
            )
        } else if url.host is None {
            Some(service_text(name, ": url "@ + quoted(raw) + " has no host"@))
        } else {
            None
        },
    }
}

/// The method of a service.
pub open spec fn service_method(d: DefaultsView, svc: RawService) -> Result<Seq<char>, Seq<char>> {
    match svc.method {
        Some(m) => method_of(m@),
        None => Ok(d.method),
    }
}

/// The pinned address of a service.
pub open spec fn service_override(d: DefaultsView, svc: RawService) -> Result<
    Option<SocketAddr>,
    Seq<char>,
> {
    match svc.resolve_override {
        Some(s) => override_of(s@),
        None => Ok(d.resolve_override),
    }
}

/// The first rule that a service breaks, given the names of the services
/// before it and what the URL parser made of its URL.
pub open spec fn service_problem(
    d: DefaultsView,
    earlier: Seq<Seq<char>>,
    svc: RawService,
    parsed: Result<UrlView, Seq<char>>,
) -> Option<Seq<char>> {
    let name = trimmed(svc.name@);
    if name.len() == 0 {
        Some("service with url "@ + quoted(svc.url@) + " has an empty name"@)
    } else if earlier.contains(name) {
        Some(
            "duplicate service name "@ + quoted(name)
                + " — names must be unique (they are Prometheus labels)"@,
        )
    } else if url_problem(name, svc.url@, parsed) is Some {
        url_problem(name, svc.url@, parsed)
    } else if svc.interval_seconds.unwrap_or(d.interval_seconds) == 0 {
        Some(service_text(name, ": interval_seconds must be > 0"@))
    } else if svc.timeout_seconds.unwrap_or(d.timeout_seconds) == 0 {
        Some(service_text(name, ": timeout_seconds must be > 0"@))
    } else if service_method(d, svc) is Err {
        Some(service_text(name, ": "@ + service_method(d, svc)->Err_0))
    } else if svc.acceptable_status is Some && ranges_problem(
        name,
        svc.acceptable_status->0@,
    ) is Some {
        ranges_problem(name, svc.acceptable_status->0@)
    } else if service_override(d, svc) is Err {
        Some(service_text(name, ": resolve_override: "@ + service_override(d, svc)->Err_0))
    } else {
        None
    }
}

/// A span of whole seconds.
pub open spec fn seconds(s: u64) -> Duration {
    Duration { nanos: (s * 1_000_000_000) as u128 }
}

/// A service that breaks no rule, with the defaults filled in.
pub open spec fn service_value(d: DefaultsView, svc: RawService, url: UrlView) -> ServiceView {
    ServiceView {
        name: trimmed(svc.name@),
        url,
        interval: seconds(svc.interval_seconds.unwrap_or(d.interval_seconds)),
        timeout: seconds(svc.timeout_seconds.unwrap_or(d.timeout_seconds)),
        method: service_method(d, svc)->Ok_0,
        acceptable_status: match svc.acceptable_status {
            Some(ranges) => ranges@,
            None => d.acceptable_status,
        },
        follow_redirects: svc.follow_redirects.unwrap_or(d.follow_redirects),
        resolve_override: service_override(d, svc)->Ok_0,
    }
}

/// One service of the file, settled or refused.
pub open spec fn service_of(
    d: DefaultsView,
    earlier: Seq<Seq<char>>,
    svc: RawService,
    parsed: Result<UrlView, Seq<char>>,
) -> Result<ServiceView, Seq<char>> {
    match service_problem(d, earlier, svc, parsed) {
        Some(problem) => Err(problem),
        None => Ok(service_value(d, svc, parsed->Ok_0)),
    }
}

/// The names of the file's services.
pub open spec fn raw_names(svcs: Seq<RawService>) -> Seq<Seq<char>> {
    svcs.map_values(|s: RawService| trimmed(s.name@))
}

/// The service at position `i` of the file, settled or refused.
pub open spec fn service_at(d: DefaultsView, svcs: Seq<RawService>, i: int) -> Result<
    ServiceView,
    Seq<char>,
> {
    service_of(d, raw_names(svcs.take(i)), svcs[i], url_parse(svcs[i].url@))
}

/// Whether the service at position `i` is the first that is refused.
pub open spec fn first_refused(d: DefaultsView, svcs: Seq<RawService>, i: int) -> bool {
    &&& 0 <= i < svcs.len()
    &&& service_at(d, svcs, i) is Err
    &&& forall|j: int| 0 <= j < i ==> (#[trigger] service_at(d, svcs, j)) is Ok
}

/// The services that a file and the environment give, in the order of the
/// file, or the first thing that is wrong.
pub open spec fn services_of(raw: RawConfig, env: Option<Option<SocketAddr>>) -> Result<
    Seq<ServiceView>,
    Seq<char>,
> {
    let svcs = raw.services@;
    if svcs.len() == 0 {
        Err("no services configured — add at least one entry under `services:`"@)
    } else {
        match defaults_of(raw.defaults, env) {
            Err(problem) => Err(problem),
            Ok(d) => if exists|i: int| first_refused(d, svcs, i) {
                Err(service_at(d, svcs, choose|i: int| first_refused(d, svcs, i))->Err_0)
            } else {
                Ok(Seq::new(svcs.len(), |i: int| service_at(d, svcs, i)->Ok_0))
            },
        }
    }
}

/// The contents of a list of services.
pub open spec fn service_views(list: Seq<ServiceConfig>) -> Seq<ServiceView> {
    list.map_values(|s: ServiceConfig| s@)
}

// ---------------------------------------------------------------------------
// The functions.
// ---------------------------------------------------------------------------

impl ServiceConfig {
    /// Whether a status code counts as up.
    pub fn is_acceptable(&self, status: u16) -> (b: bool)
        ensures
            b == in_ranges(self@.acceptable_status, status),
            (exists|i: int|
                0 <= i < self.acceptable_status@.len() && (#[trigger] self.acceptable_status@[i]).0
                    <= status && status <= self.acceptable_status@[i].1) ==> b,
            (forall|i: int|
                0 <= i < self.acceptable_status@.len() ==> status < (
                #[trigger] self.acceptable_status@[i]).0 || status > self.acceptable_status@[i].1)
                ==> !b,
    {
        let ranges = &self.acceptable_status;
        let mut i: usize = 0;
        while i < ranges.len()
            invariant
                i <= ranges@.len(),
                ranges@ == self@.acceptable_status,
                forall|j: int|
                    0 <= j < i ==> !((#[trigger] ranges@[j]).0 <= status <= ranges@[j].1),
            decreases ranges@.len() - i,
        {
            let (lo, hi) = ranges[i];
            if lo <= status && status <= hi {
                assert(ranges@[i as int].0 <= status <= ranges@[i as int].1);
                return true;
            }
            i = i + 1;
        }
        false
    }
}

/// A message about a service.
fn about_service(name: &str, rest: &str) -> (r: String)
    ensures
        r@ == service_text(name@, rest@),
{
    "service ".to_owned().concat(quote(name).as_str()).concat(rest)
}

/// Refuses acceptable status ranges that are missing or no status ranges.
pub fn validate_status_ranges(name: &str, ranges: &[(u16, u16)]) -> (r: Result<(), ConfigError>)
    ensures
        r is Ok <==> valid_ranges(ranges@),
        r is Ok <==> ranges@.len() > 0 && (forall|i: int|
            0 <= i < ranges@.len() ==> 100 <= (#[trigger] ranges@[i]).0 && ranges@[i].0
                <= ranges@[i].1 && ranges@[i].1 <= 599),
        match r {
            Ok(_) => ranges_problem(name@, ranges@) is None,
            Err(e) => ranges_problem(name@, ranges@) is Some && e@ == ConfigErrorView::Invalid(
                ranges_problem(name@, ranges@)->0,
            ),
        },
{
    if ranges.len() == 0 {
        return Err(
            ConfigError::Invalid(about_service(name, ": acceptable_status must not be empty")),
        );
    }
    let mut i: usize = 0;
    while i < ranges.len()
        invariant
            i <= ranges@.len(),
            ranges@.len() > 0,
            forall|j: int| 0 <= j < i ==> valid_range(#[trigger] ranges@[j]),
        decreases ranges@.len() - i,
    {
        let (lo, hi) = ranges[i];
        if lo > hi || lo < 100 || hi > 599 {
            proof {
                assert(first_bad_range(ranges@, i as int));
                let k = choose|k: int| first_bad_range(ranges@, k);
                assert(k == i) by {
                    if k < i {
                        assert(valid_range(ranges@[k]));
                    } else if k > i {
                        assert(valid_range(ranges@[i as int]));
                    }
                }
            }
            let detail = ": invalid status range [".to_owned().concat(
                decimal_text(lo as u64).as_str(),
            ).concat(", ").concat(decimal_text(hi as u64).as_str()).concat(
                "] (need 100 <= low <= high <= 599)",
            );
            return Err(ConfigError::Invalid(about_service(name, detail.as_str())));
        }
        i = i + 1;
    }
    Ok(())
}

/// Reads an override: blank for none, `IP` or `IP:PORT`. A bare IP gets port
/// zero, which stands for the port of the URL's scheme.
pub fn parse_resolve_override(raw: &str) -> (r: Result<Option<SocketAddr>, String>)
    ensures
        match r {
            Ok(pin) => override_of(raw@) == Ok::<Option<SocketAddr>, Seq<char>>(pin),
            Err(e) => override_of(raw@) == Err::<Option<SocketAddr>, Seq<char>>(e@),
        },
{
    let text = trim(raw);
    if text.is_empty() {
        return Ok(None);
    }
    let chars = chars_of(text);
    if let Some(addr) = parse_socket(chars.as_slice()) {
        return Ok(Some(addr));
    }
    if let Some(ip) = parse_ip(chars.as_slice()) {
        return Ok(Some(SocketAddr { ip, port: 0, scope_id: 0 }));
    }
    Err(
        "expected an IP or IP:PORT (e.g. 192.168.1.10 or 192.168.1.10:443), got ".to_owned().concat(
            quote(text).as_str(),
        ),
    )
}

impl Settings {
    /// The settings that the variables `UPTIME_CONFIG_PATH`,
    /// `UPTIME_LISTEN_ADDR` and `UPTIME_RESOLVE_OVERRIDE` give; one that is
    /// unset is `None`.
    pub fn from_env(
        config_path: Option<String>,
        listen_addr: Option<String>,
        resolve_override: Option<String>,
    ) -> (r: Result<Settings, ConfigError>)
        ensures
            match r {
                Ok(s) => settings_of(config_path, listen_addr, resolve_override) == Ok::<
                    SettingsView,
                    ConfigErrorView,
                >(s@),
                Err(e) => settings_of(config_path, listen_addr, resolve_override) == Err::<
                    SettingsView,
                    ConfigErrorView,
                >(e@),
            },
    {
        let config_path = match config_path {
            Some(s) => s,
            None => DEFAULT_CONFIG_PATH.to_owned(),
        };
        let listen = match listen_addr {
            Some(s) => s,
            None => DEFAULT_LISTEN_ADDR.to_owned(),
        };
        let listen_addr = match parse_socket(chars_of(listen.as_str()).as_slice()) {
            Some(addr) => addr,
            None => {
                return Err(
                    ConfigError::InvalidEnv {
                        name: "UPTIME_LISTEN_ADDR".to_owned(),
                        value: listen,
                        reason: "not a valid socket address: invalid socket address syntax".to_owned(),
                    },
                );
            },
        };
        let resolve_override = match resolve_override {
            Some(raw) => match parse_resolve_override(raw.as_str()) {
                Ok(pin) => Some(pin),
                Err(reason) => {
                    return Err(
                        ConfigError::InvalidEnv {
                            name: "UPTIME_RESOLVE_OVERRIDE".to_owned(),
                            value: raw,
                            reason,
                        },
                    );
                },
            },
            None => None,
        };
        Ok(Settings { config_path, listen_addr, resolve_override })
    }
}

/// A copy of some ranges.
fn copy_ranges(ranges: &Vec<(u16, u16)>) -> (v: Vec<(u16, u16)>)
    ensures
        v@ == ranges@,
{
    let mut v: Vec<(u16, u16)> = Vec::new();
    let mut i: usize = 0;
    while i < ranges.len()
        invariant
            i <= ranges@.len(),
            v@ == ranges@.take(i as int),
        decreases ranges@.len() - i,
    {
        v.push(ranges[i]);
        i = i + 1;
    }
    v
}

/// Settles the defaults of a configuration.
pub fn resolve_defaults(raw: &RawDefaults, settings: &Settings) -> (r: Result<
    Defaults,
    ConfigError,
>)
    ensures
        match r {
            Ok(d) => defaults_of(*raw, settings.resolve_override) == Ok::<DefaultsView, Seq<char>>(
                d@,
            ),
            Err(e) => defaults_of(*raw, settings.resolve_override) is Err && e@
                == ConfigErrorView::Invalid(defaults_of(*raw, settings.resolve_override)->Err_0),
        },
{
    let in_file = match &raw.resolve_override {
        Some(s) => match parse_resolve_override(s.as_str()) {
            Ok(pin) => pin,
            Err(e) => {
                return Err(
                    ConfigError::Invalid(
                        "defaults.resolve_override: ".to_owned().concat(e.as_str()),
                    ),
                );
            },
        },
        None => None,
    };
    let resolve_override = match settings.resolve_override {
        Some(pin) => pin,
        None => in_file,
    };
    let parsed = match &raw.method {
        Some(m) => parse_method(m.as_str()),
        None => parse_method(DEFAULT_METHOD),
    };
    let method = match parsed {
        Ok(m) => m,
        Err(e) => {
            return Err(ConfigError::Invalid("defaults.method: ".to_owned().concat(e.as_str())));
        },
    };
    let acceptable_status = match &raw.acceptable_status {
        Some(ranges) => copy_ranges(ranges),
        None => {
            let mut ranges: Vec<(u16, u16)> = Vec::new();
            ranges.push((DEFAULT_STATUS_LOW, DEFAULT_STATUS_HIGH));
            assert(ranges@ =~= seq![(DEFAULT_STATUS_LOW, DEFAULT_STATUS_HIGH)]);
            ranges
        },
    };
    match validate_status_ranges("<defaults>", acceptable_status.as_slice()) {
        Ok(_) => {},
        Err(e) => {
            return Err(e);
        },
    }
    Ok(
        Defaults {
            interval_seconds: raw.interval_seconds.unwrap_or(DEFAULT_INTERVAL_SECONDS),
            timeout_seconds: raw.timeout_seconds.unwrap_or(DEFAULT_TIMEOUT_SECONDS),
            method,
            acceptable_status,
            follow_redirects: raw.follow_redirects.unwrap_or(DEFAULT_FOLLOW_REDIRECTS),
            resolve_override,
        },
    )
}

/// The names that some strings hold.
pub open spec fn names_of(v: Seq<String>) -> Seq<Seq<char>> {
    v.map_values(|s: String| s@)
}

/// Whether a name is among those seen.
fn has_name(seen: &Vec<String>, name: &String) -> (b: bool)
    ensures
        b == names_of(seen@).contains(name@),
{
    let mut i: usize = 0;
    while i < seen.len()
        invariant
            i <= seen@.len(),
            forall|j: int| 0 <= j < i ==> (#[trigger] names_of(seen@)[j]) != name@,
        decreases seen@.len() - i,
    {
        if seen[i] == *name {
            assert(names_of(seen@)[i as int] == name@);
            return true;
        }
        i = i + 1;
    }
    false
}

/// Accepts the URL of a service, given what the URL parser made of it: it has
/// to be an absolute HTTP or HTTPS URL with a host.
pub fn accept_url(name: &str, raw: &str, parsed: Result<Url, String>) -> (r: Result<
    Url,
    ConfigError,
>)
    ensures
        match r {
            Ok(url) => url_problem(name@, raw@, parsed_view(parsed)) is None && Ok::<
                UrlView,
                Seq<char>,
            >(url@) == parsed_view(parsed),
            Err(e) => url_problem(name@, raw@, parsed_view(parsed)) is Some && e@
                == ConfigErrorView::Invalid(url_problem(name@, raw@, parsed_view(parsed))->0),
        },
        r is Ok <==> (parsed matches Ok(url) && (url.scheme@ == "http"@ || url.scheme@ == "https"@)
            && url.host is Some),
        r matches Ok(url) ==> parsed == Ok::<Url, String>(url),
{
    let url = match parsed {
        Ok(url) => url,
        Err(e) => {
            let detail = ": invalid url ".to_owned().concat(quote(raw).as_str()).concat(
                ": ",
            ).concat(e.as_str());
            return Err(ConfigError::Invalid(about_service(name, detail.as_str())));
        },
    };
    if url.scheme != "http".to_owned() && url.scheme != "https".to_owned() {
        let detail = ": url scheme must be http or https, got ".to_owned().concat(
            quote(url.scheme.as_str()).as_str(),
        );
        return Err(ConfigError::Invalid(about_service(name, detail.as_str())));
    }
    if url.host.is_none() {
        let detail = ": url ".to_owned().concat(quote(raw).as_str()).concat(" has no host");
        return Err(ConfigError::Invalid(about_service(name, detail.as_str())));
    }
    Ok(url)
}

/// Settles one service, given the names of the services before it and what
/// the URL parser made of its URL.
pub fn resolve_service(
    defaults: &Defaults,
    seen: &Vec<String>,
    svc: &RawService,
    parsed: Result<Url, String>,
) -> (r: Result<ServiceConfig, ConfigError>)
    ensures
        match r {
            Ok(s) => service_of(defaults@, names_of(seen@), *svc, parsed_view(parsed)) == Ok::<
                ServiceView,
                Seq<char>,
            >(s@),
            Err(e) => service_of(defaults@, names_of(seen@), *svc, parsed_view(parsed)) is Err && e@
                == ConfigErrorView::Invalid(
                service_of(defaults@, names_of(seen@), *svc, parsed_view(parsed))->Err_0,
            ),
        },
        r matches Ok(s) ==> {
            &&& s.name@ == trimmed(svc.name@)
            &&& parsed == Ok::<Url, String>(s.url)
            &&& s.interval.nanos == 1_000_000_000 * match svc.interval_seconds {
                Some(n) => n,
                None => defaults.interval_seconds,
            }
            &&& s.timeout.nanos == 1_000_000_000 * match svc.timeout_seconds {
                Some(n) => n,
                None => defaults.timeout_seconds,
            }
            &&& svc.method is None ==> s.method@ == defaults.method@
            &&& s.acceptable_status@ == match svc.acceptable_status {
                Some(ranges) => ranges@,
                None => defaults.acceptable_status@,
            }
            &&& s.follow_redirects == match svc.follow_redirects {
                Some(follow) => follow,
                None => defaults.follow_redirects,
            }
            &&& svc.resolve_override is None ==> s.resolve_override == defaults.resolve_override
        },
{
    let name = trim(svc.name.as_str()).to_owned();
    if name.as_str().is_empty() {
        return Err(
            ConfigError::Invalid(
                "service with url ".to_owned().concat(quote(svc.url.as_str()).as_str()).concat(
                    " has an empty name",
                ),
            ),
        );
    }
    if has_name(seen, &name) {
        return Err(
            ConfigError::Invalid(
                "duplicate service name ".to_owned().concat(quote(name.as_str()).as_str()).concat(
                    " — names must be unique (they are Prometheus labels)",
                ),
            ),
        );
    }
    let url = match accept_url(name.as_str(), svc.url.as_str(), parsed) {
        Ok(url) => url,
        Err(e) => {
            return Err(e);
        },
    };
    let interval_seconds: u64 = svc.interval_seconds.unwrap_or(defaults.interval_seconds);
    if interval_seconds == 0 {
        return Err(
            ConfigError::Invalid(about_service(name.as_str(), ": interval_seconds must be > 0")),
        );
    }
    let timeout_seconds: u64 = svc.timeout_seconds.unwrap_or(defaults.timeout_seconds);
    if timeout_seconds == 0 {
        return Err(
            ConfigError::Invalid(about_service(name.as_str(), ": timeout_seconds must be > 0")),
        );
    }
    let method = match &svc.method {
        Some(m) => match parse_method(m.as_str()) {
            Ok(m) => m,
            Err(e) => {
                let detail = ": ".to_owned().concat(e.as_str());
                return Err(ConfigError::Invalid(about_service(name.as_str(), detail.as_str())));
            },
        },
        None => defaults.method.clone(),
    };
    let acceptable_status = match &svc.acceptable_status {
        Some(ranges) => {
            match validate_status_ranges(name.as_str(), ranges.as_slice()) {
                Ok(_) => {},
                Err(e) => {
                    return Err(e);
                },
            }
            copy_ranges(ranges)
        },
        None => copy_ranges(&defaults.acceptable_status),
    };
    let resolve_override = match &svc.resolve_override {
        Some(s) => match parse_resolve_override(s.as_str()) {
            Ok(pin) => pin,
            Err(e) => {
                let detail = ": resolve_override: ".to_owned().concat(e.as_str());
                return Err(ConfigError::Invalid(about_service(name.as_str(), detail.as_str())));
            },
        },
        None => defaults.resolve_override,
    };
    Ok(
        ServiceConfig {
            name,
            url,
            interval: Duration::from_secs(interval_seconds),
            timeout: Duration::from_secs(timeout_seconds),
            method,
            acceptable_status,
            follow_redirects: svc.follow_redirects.unwrap_or(defaults.follow_redirects),
            resolve_override,
        },
    )
}

/// Settles every service of a configuration file, or reports the first thing
/// that is wrong with it.
pub fn resolve_services(raw: RawConfig, settings: &Settings) -> (r: Result<
    Vec<ServiceConfig>,
    ConfigError,
>)
    ensures
        match r {
            Ok(list) => services_of(raw, settings.resolve_override) == Ok::<
                Seq<ServiceView>,
                Seq<char>,
            >(service_views(list@)),
            Err(e) => services_of(raw, settings.resolve_override) is Err && e@
                == ConfigErrorView::Invalid(services_of(raw, settings.resolve_override)->Err_0),
        },
{
    if raw.services.len() == 0 {
        return Err(
            ConfigError::Invalid(
                "no services configured — add at least one entry under `services:`".to_owned(),
            ),
        );
    }
    let defaults = match resolve_defaults(&raw.defaults, settings) {
        Ok(d) => d,
        Err(e) => {
            return Err(e);
        },
    };
    let ghost d = defaults@;
    let ghost svcs = raw.services@;
    let mut seen: Vec<String> = Vec::new();
    let mut services: Vec<ServiceConfig> = Vec::new();
    assert(names_of(seen@) =~= raw_names(svcs.take(0)));
    let mut i: usize = 0;
    while i < raw.services.len()
        invariant
            i <= raw.services@.len(),
            svcs == raw.services@,
            svcs.len() > 0,
            d == defaults@,
            defaults_of(raw.defaults, settings.resolve_override) == Ok::<DefaultsView, Seq<char>>(
                d,
            ),
            services@.len() == i,
            names_of(seen@) == raw_names(svcs.take(i as int)),
            forall|j: int|
                0 <= j < i ==> (#[trigger] service_at(d, svcs, j)) == Ok::<ServiceView, Seq<char>>(
                    services@[j]@,
                ),
        decreases raw.services@.len() - i,
    {
        let svc = &raw.services[i];
        let parsed = parse_url(svc.url.as_str());
        match resolve_service(&defaults, &seen, svc, parsed) {
            Ok(service) => {
                let ghost sofar = seen@;
                seen.push(service.name.clone());
                assert(service@.name == trimmed(svcs[i as int].name@));
                assert(svcs.take(i + 1) =~= svcs.take(i as int).push(svcs[i as int]));
                assert(raw_names(svcs.take(i + 1)) =~= raw_names(svcs.take(i as int)).push(
                    service@.name,
                ));
                assert(names_of(seen@) =~= names_of(sofar).push(service@.name));
                assert(names_of(seen@) =~= raw_names(svcs.take(i + 1)));
                services.push(service);
            },
            Err(e) => {
                proof {
                    assert(first_refused(d, svcs, i as int));
                    let k = choose|k: int| first_refused(d, svcs, k);
                    assert(k == i) by {
                        if k < i {
                            assert(service_at(d, svcs, k) is Ok);
                        } else if k > i {
                            assert(service_at(d, svcs, i as int) is Ok);
                        }
                    }
                }
                return Err(e);
            },
        }
        i = i + 1;
    }
    proof {
        assert forall|k: int| !first_refused(d, svcs, k) by {
            if 0 <= k < svcs.len() {
                assert(service_at(d, svcs, k) is Ok);
            }
        }
        assert(service_views(services@) =~= Seq::new(
            svcs.len(),
            |k: int| service_at(d, svcs, k)->Ok_0,
        )) by {
            assert forall|k: int| 0 <= k < svcs.len() implies service_views(services@)[k]
                == #[trigger] service_at(d, svcs, k)->Ok_0 by {}
        }
    }
    Ok(services)
}

/// What came of reading and parsing the configuration file.
#[derive(Debug)]
pub enum ConfigFile {
    /// It could not be read; why.
    Unreadable(String),
    /// It could be read, but its text is no configuration; why.
    Malformed(String),
    /// What it says.
    Parsed(RawConfig),
}

/// The services that a configuration file and the environment give, or why
/// there are none.
pub open spec fn loaded(settings: SettingsView, file: ConfigFile) -> Result<
    Seq<ServiceView>,
    ConfigErrorView,
> {
    match file {
        ConfigFile::Unreadable(source) => Err(
            ConfigErrorView::Read { path: settings.config_path, source: source@ },
        ),
        ConfigFile::Malformed(source) => Err(
            ConfigErrorView::Parse { path: settings.config_path, source: source@ },
        ),
        ConfigFile::Parsed(raw) => match services_of(raw, settings.resolve_override) {
            Ok(list) => Ok(list),
            Err(problem) => Err(ConfigErrorView::Invalid(problem)),
        },
    }
}

/// The services to probe, given what came of reading and parsing the file at
/// `settings.config_path`.
pub fn load_services(settings: &Settings, file: ConfigFile) -> (r: Result<
    Vec<ServiceConfig>,
    ConfigError,
>)
    ensures
        match r {
            Ok(list) => loaded(settings@, file) == Ok::<Seq<ServiceView>, ConfigErrorView>(
                service_views(list@),
            ),
            Err(e) => loaded(settings@, file) == Err::<Seq<ServiceView>, ConfigErrorView>(e@),
        },
{
    match file {
        ConfigFile::Unreadable(source) => Err(
            ConfigError::Read { path: settings.config_path.clone(), source },
        ),
        ConfigFile::Malformed(source) => Err(
            ConfigError::Parse { path: settings.config_path.clone(), source },
        ),
        ConfigFile::Parsed(raw) => resolve_services(raw, settings),
    }
}

} // verus!
