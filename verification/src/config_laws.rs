//! What holds of every configuration that is accepted, and of every one that
//! is refused.
use vstd::prelude::*;

use crate::addr::SocketAddr;
use crate::config::{
    default_ranges, defaults_of, file_override, first_bad_range, first_refused, in_ranges,
    override_of, ranges_problem, raw_names, seconds, service_at, services_of, url_problem,
    valid_range, valid_ranges, DefaultsView, RawConfig, RawService, ServiceView,
    DEFAULT_INTERVAL_SECONDS, DEFAULT_STATUS_HIGH, DEFAULT_STATUS_LOW, DEFAULT_TIMEOUT_SECONDS,
};
use crate::method::{is_token, method_of, upper, uppercased};
use crate::text::{trimmed, trimmed_end, trimmed_start};
use crate::url::url_parse;

verus! {

/// A request method that can be sent: a token with no letter in lower case.
pub open spec fn valid_method(m: Seq<char>) -> bool {
    &&& is_token(m)
    &&& uppercased(m) == m
}

/// A service that can be probed.
pub open spec fn valid_service(s: ServiceView) -> bool {
    &&& s.name.len() > 0
    &&& s.url.scheme == "http"@ || s.url.scheme == "https"@
    &&& s.url.host is Some
    &&& s.interval.nanos > 0
    &&& s.timeout.nanos > 0
    &&& s.interval.in_range()
    &&& s.timeout.in_range()
    &&& valid_method(s.method)
    &&& valid_ranges(s.acceptable_status)
}

/// Ranges of which one is not valid have a first such range.
proof fn lemma_first_bad_range(ranges: Seq<(u16, u16)>, i: int)
    requires
        0 <= i < ranges.len(),
        !valid_range(ranges[i]),
    ensures
        exists|k: int| first_bad_range(ranges, k),
    decreases i,
{
    if first_bad_range(ranges, i) {
    } else {
        let j = choose|j: int| 0 <= j < i && !valid_range(#[trigger] ranges[j]);
        lemma_first_bad_range(ranges, j);
    }
}

/// Acceptable status ranges are reported exactly where one of them is not
/// valid or there is none.
pub proof fn law_ranges_reported(name: Seq<char>, ranges: Seq<(u16, u16)>)
    ensures
        ranges_problem(name, ranges) is None <==> valid_ranges(ranges),
{
    if ranges_problem(name, ranges) is None {
        assert forall|i: int| 0 <= i < ranges.len() implies valid_range(#[trigger] ranges[i]) by {
            if !valid_range(ranges[i]) {
                lemma_first_bad_range(ranges, i);
            }
        }
    }
}

/// Upper case stays upper case.
proof fn lemma_upper_twice(s: Seq<char>)
    ensures
        uppercased(uppercased(s)) == uppercased(s),
{
    assert forall|i: int| 0 <= i < s.len() implies upper(upper(#[trigger] s[i])) == upper(s[i]) by {
        lemma_upper_char_twice(s[i]);
    }
    assert(uppercased(uppercased(s)) =~= uppercased(s));
}

proof fn lemma_upper_char_twice(c: char)
    ensures
        upper(upper(c)) == upper(c),
{
}

/// Every method that is read can be sent.
pub proof fn law_methods_valid(raw: Seq<char>)
    requires
        method_of(raw) is Ok,
    ensures
        valid_method(method_of(raw)->Ok_0),
{
    lemma_upper_twice(trimmed(raw));
}

/// A service that is refused is not the first one that is, unless all before
/// it are accepted.
proof fn lemma_first_refused(d: DefaultsView, svcs: Seq<RawService>, i: int)
    requires
        0 <= i < svcs.len(),
        service_at(d, svcs, i) is Err,
    ensures
        exists|k: int| first_refused(d, svcs, k),
    decreases i,
{
    if first_refused(d, svcs, i) {
    } else {
        let j = choose|j: int| 0 <= j < i && !((#[trigger] service_at(d, svcs, j)) is Ok);
        lemma_first_refused(d, svcs, j);
    }
}

/// A configuration is refused exactly where it lists no service, its defaults
/// break a rule, or one of its services does. Nothing of it is used then.
pub proof fn law_refused_exactly(raw: RawConfig, env: Option<Option<SocketAddr>>)
    ensures
        services_of(raw, env) is Err <==> {
            ||| raw.services@.len() == 0
            ||| defaults_of(raw.defaults, env) is Err
            ||| exists|i: int|
                0 <= i < raw.services@.len() && (#[trigger] service_at(
                    defaults_of(raw.defaults, env)->Ok_0,
                    raw.services@,
                    i,
                )) is Err
        },
{
    let svcs = raw.services@;
    if svcs.len() > 0 && defaults_of(raw.defaults, env) is Ok {
        let d = defaults_of(raw.defaults, env)->Ok_0;
        if exists|i: int| 0 <= i < svcs.len() && (#[trigger] service_at(d, svcs, i)) is Err {
            let i = choose|i: int|
                0 <= i < svcs.len() && (#[trigger] service_at(d, svcs, i)) is Err;
            lemma_first_refused(d, svcs, i);
        }
        if services_of(raw, env) is Err {
            let k = choose|k: int| first_refused(d, svcs, k);
            assert(service_at(d, svcs, k) is Err);
        }
    }
}

/// Each service of an accepted configuration is what its own entry and the
/// defaults make of it.
pub proof fn lemma_accepted(raw: RawConfig, env: Option<Option<SocketAddr>>, i: int)
    requires
        services_of(raw, env) is Ok,
        0 <= i < raw.services@.len(),
    ensures
        defaults_of(raw.defaults, env) is Ok,
        service_at(defaults_of(raw.defaults, env)->Ok_0, raw.services@, i) == Ok::<
            ServiceView,
            Seq<char>,
        >(services_of(raw, env)->Ok_0[i]),
{
    let svcs = raw.services@;
    let d = defaults_of(raw.defaults, env)->Ok_0;
    if service_at(d, svcs, i) is Err {
        lemma_first_refused(d, svcs, i);
    }
}

/// An accepted configuration yields one service for each entry, in the order
/// of the file, under the entry's name without the white space round it, and
/// with the URL that the parser made of the entry's.
pub proof fn law_services_in_order(raw: RawConfig, env: Option<Option<SocketAddr>>)
    requires
        services_of(raw, env) is Ok,
    ensures
        services_of(raw, env)->Ok_0.len() == raw.services@.len(),
        forall|i: int|
            0 <= i < raw.services@.len() ==> {
                &&& (#[trigger] services_of(raw, env)->Ok_0[i]).name == trimmed(
                    raw.services@[i].name@,
                )
                &&& url_parse(raw.services@[i].url@) == Ok::<_, Seq<char>>(
                    services_of(raw, env)->Ok_0[i].url,
                )
            },
{
    assert forall|i: int| 0 <= i < raw.services@.len() implies {
        &&& (#[trigger] services_of(raw, env)->Ok_0[i]).name == trimmed(raw.services@[i].name@)
        &&& url_parse(raw.services@[i].url@) == Ok::<_, Seq<char>>(
            services_of(raw, env)->Ok_0[i].url,
        )
    } by {
        lemma_accepted(raw, env, i);
    }
}

/// Every service of an accepted configuration can be probed.
pub proof fn law_services_valid(raw: RawConfig, env: Option<Option<SocketAddr>>)
    requires
        services_of(raw, env) is Ok,
    ensures
        forall|i: int|
            0 <= i < services_of(raw, env)->Ok_0.len() ==> valid_service(
                #[trigger] services_of(raw, env)->Ok_0[i],
            ),
{
    let list = services_of(raw, env)->Ok_0;
    let svcs = raw.services@;
    let d = defaults_of(raw.defaults, env)->Ok_0;
    assert forall|i: int| 0 <= i < list.len() implies valid_service(#[trigger] list[i]) by {
        lemma_accepted(raw, env, i);
        let svc = svcs[i];
        let name = trimmed(svc.name@);
        law_ranges_reported("<defaults>"@, default_ranges(raw.defaults));
        if svc.acceptable_status is Some {
            law_ranges_reported(name, svc.acceptable_status->0@);
        }
        match svc.method {
            Some(m) => law_methods_valid(m@),
            None => match raw.defaults.method {
                Some(m) => law_methods_valid(m@),
                None => law_methods_valid(crate::config::DEFAULT_METHOD@),
            },
        }
        assert(url_problem(name, svc.url@, url_parse(svc.url@)) is None);
    }
}

/// No two services of an accepted configuration have the same name.
pub proof fn law_names_unique(raw: RawConfig, env: Option<Option<SocketAddr>>, i: int, j: int)
    requires
        services_of(raw, env) is Ok,
        0 <= i < services_of(raw, env)->Ok_0.len(),
        0 <= j < services_of(raw, env)->Ok_0.len(),
        i != j,
    ensures
        services_of(raw, env)->Ok_0[i].name != services_of(raw, env)->Ok_0[j].name,
{
    let svcs = raw.services@;
    lemma_accepted(raw, env, i);
    lemma_accepted(raw, env, j);
    let (first, second) = if i < j {
        (i, j)
    } else {
        (j, i)
    };
    let earlier = raw_names(svcs.take(second));
    assert(earlier[first] == trimmed(svcs[first].name@));
    assert(earlier.contains(trimmed(svcs[first].name@)));
}

/// Where the environment sets the override, it makes no difference which
/// address the file's defaults give, or whether they give one.
pub proof fn law_environment_wins(
    raw: RawConfig,
    other: RawConfig,
    pin: Option<SocketAddr>,
)
    requires
        other.services == raw.services,
        other.defaults.interval_seconds == raw.defaults.interval_seconds,
        other.defaults.timeout_seconds == raw.defaults.timeout_seconds,
        other.defaults.method == raw.defaults.method,
        other.defaults.acceptable_status == raw.defaults.acceptable_status,
        other.defaults.follow_redirects == raw.defaults.follow_redirects,
        file_override(raw.defaults) is Ok,
        file_override(other.defaults) is Ok,
    ensures
        services_of(other, Some(pin)) == services_of(raw, Some(pin)),
{
    assert(defaults_of(other.defaults, Some(pin)) == defaults_of(raw.defaults, Some(pin)));
}

/// An override that is no address is refused wherever it stands in the file,
/// whether or not a service would use it.
pub proof fn law_overrides_checked(raw: RawConfig, env: Option<Option<SocketAddr>>)
    requires
        ({
            ||| raw.defaults.resolve_override matches Some(s) && override_of(s@) is Err
            ||| exists|i: int|
                0 <= i < raw.services@.len() && ((
                #[trigger] raw.services@[i]).resolve_override matches Some(s) && override_of(
                    s@,
                ) is Err)
        }),
    ensures
        services_of(raw, env) is Err,
{
    law_refused_exactly(raw, env);
    if defaults_of(raw.defaults, env) is Ok && raw.services@.len() > 0 {
        let d = defaults_of(raw.defaults, env)->Ok_0;
        let i = choose|i: int|
            0 <= i < raw.services@.len() && ((
            #[trigger] raw.services@[i]).resolve_override matches Some(s) && override_of(
                s@,
            ) is Err);
        assert(service_at(d, raw.services@, i) is Err);
    }
}

/// A service without an override of its own is pinned as the environment says
/// where the environment says something, else as the file's defaults say, else
/// not at all.
pub proof fn law_inherited_override(raw: RawConfig, env: Option<Option<SocketAddr>>, i: int)
    requires
        services_of(raw, env) is Ok,
        0 <= i < raw.services@.len(),
        raw.services@[i].resolve_override is None,
    ensures
        services_of(raw, env)->Ok_0[i].resolve_override == match env {
            Some(pin) => pin,
            None => match raw.defaults.resolve_override {
                Some(s) => override_of(s@)->Ok_0,
                None => None,
            },
        },
{
    lemma_accepted(raw, env, i);
}

/// What a service says of itself wins over the environment and over the
/// file's defaults.
pub proof fn law_own_settings_win(raw: RawConfig, env: Option<Option<SocketAddr>>, i: int)
    requires
        services_of(raw, env) is Ok,
        0 <= i < raw.services@.len(),
    ensures
        ({
            let svc = raw.services@[i];
            let service = services_of(raw, env)->Ok_0[i];
            &&& svc.interval_seconds is Some ==> service.interval == seconds(
                svc.interval_seconds->0,
            )
            &&& svc.timeout_seconds is Some ==> service.timeout == seconds(svc.timeout_seconds->0)
            &&& svc.method is Some ==> method_of(svc.method->0@) == Ok::<Seq<char>, Seq<char>>(
                service.method,
            )
            &&& svc.acceptable_status is Some ==> service.acceptable_status
                == svc.acceptable_status->0@
            &&& svc.follow_redirects is Some ==> service.follow_redirects
                == svc.follow_redirects->0
            &&& svc.resolve_override is Some ==> override_of(svc.resolve_override->0@) == Ok::<
                Option<SocketAddr>,
                Seq<char>,
            >(service.resolve_override)
        }),
{
    lemma_accepted(raw, env, i);
}

/// A blank override switches pinning off, whatever the defaults and the
/// environment say.
pub proof fn law_blank_override_disables(raw: RawConfig, env: Option<Option<SocketAddr>>, i: int)
    requires
        services_of(raw, env) is Ok,
        0 <= i < raw.services@.len(),
        raw.services@[i].resolve_override is Some,
        trimmed(raw.services@[i].resolve_override->0@).len() == 0,
    ensures
        services_of(raw, env)->Ok_0[i].resolve_override is None,
{
    lemma_accepted(raw, env, i);
}

/// A service takes from the file's defaults what it does not say itself, and
/// the built-in fallbacks for what the defaults do not say either.
pub proof fn law_defaults_apply(raw: RawConfig, env: Option<Option<SocketAddr>>, i: int)
    requires
        services_of(raw, env) is Ok,
        0 <= i < raw.services@.len(),
    ensures
        ({
            let svc = raw.services@[i];
            let service = services_of(raw, env)->Ok_0[i];
            &&& svc.interval_seconds is None ==> service.interval == seconds(
                raw.defaults.interval_seconds.unwrap_or(DEFAULT_INTERVAL_SECONDS),
            )
            &&& svc.timeout_seconds is None ==> service.timeout == seconds(
                raw.defaults.timeout_seconds.unwrap_or(DEFAULT_TIMEOUT_SECONDS),
            )
            &&& svc.method is None && raw.defaults.method is Some ==> method_of(
                raw.defaults.method->0@,
            ) == Ok::<Seq<char>, Seq<char>>(service.method)
            &&& svc.method is None && raw.defaults.method is None ==> service.method == "GET"@
            &&& svc.acceptable_status is None && raw.defaults.acceptable_status is Some
                ==> service.acceptable_status == raw.defaults.acceptable_status->0@
            &&& svc.follow_redirects is None ==> service.follow_redirects
                == raw.defaults.follow_redirects.unwrap_or(true)
        }),
{
    lemma_accepted(raw, env, i);
    lemma_default_method();
}

/// The built-in method is read as itself.
pub proof fn lemma_default_method()
    ensures
        method_of("GET"@) == Ok::<Seq<char>, Seq<char>>("GET"@),
{
    reveal_strlit("GET");
    let s = "GET"@;
    assert(trimmed_start(s) == s);
    assert(trimmed_end(s) == s);
    assert(uppercased(s) =~= s);
}

/// A service for which nothing says which status codes count as up takes 200
/// to 399 for up, and every other code for down.
pub proof fn law_default_status(
    raw: RawConfig,
    env: Option<Option<SocketAddr>>,
    i: int,
    status: u16,
)
    requires
        services_of(raw, env) is Ok,
        0 <= i < raw.services@.len(),
        raw.services@[i].acceptable_status is None,
        raw.defaults.acceptable_status is None,
    ensures
        in_ranges(services_of(raw, env)->Ok_0[i].acceptable_status, status) <==> 200 <= status
            <= 399,
{
    lemma_accepted(raw, env, i);
    let ranges = services_of(raw, env)->Ok_0[i].acceptable_status;
    assert(ranges[0] == (DEFAULT_STATUS_LOW, DEFAULT_STATUS_HIGH));
}

/// White space round an override text makes no difference.
pub proof fn law_override_ignores_margins(raw: Seq<char>, other: Seq<char>)
    requires
        trimmed(raw) == trimmed(other),
    ensures
        override_of(raw) == override_of(other),
{
}

} // verus!
