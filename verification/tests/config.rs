use reqwest::Method;
use serde_yaml_ng::Value;

use uptime_exporter::addr::{parse_socket, IpAddr, SocketAddr};
use uptime_exporter::config::{
    accept_url, load_services, parse_resolve_override, resolve_defaults, resolve_service,
    resolve_services, validate_status_ranges, ConfigFile, RawConfig, RawDefaults, RawService,
    ServiceConfig, Settings,
};
use uptime_exporter::duration::Duration;
use uptime_exporter::error::ConfigError;
use uptime_exporter::method::parse_method;
use uptime_exporter::url::Url;

fn addr(text: &str) -> SocketAddr {
    let chars: Vec<char> = text.chars().collect();
    parse_socket(&chars).unwrap()
}

fn test_settings() -> Settings {
    Settings {
        config_path: "/dev/null".to_string(),
        listen_addr: addr("127.0.0.1:9184"),
        resolve_override: None,
    }
}

fn text_at(map: &Value, key: &str) -> Option<String> {
    map.get(key).map(|v| v.as_str().unwrap().to_string())
}

fn number_at(map: &Value, key: &str) -> Option<u64> {
    map.get(key).map(|v| v.as_u64().unwrap())
}

fn flag_at(map: &Value, key: &str) -> Option<bool> {
    map.get(key).map(|v| v.as_bool().unwrap())
}

fn ranges_at(map: &Value, key: &str) -> Option<Vec<(u16, u16)>> {
    map.get(key).map(|v| {
        v.as_sequence()
            .unwrap()
            .iter()
            .map(|pair| {
                let bound = |i: usize| u16::try_from(pair[i].as_u64().unwrap()).unwrap();
                (bound(0), bound(1))
            })
            .collect()
    })
}

fn raw_service(map: &Value) -> RawService {
    RawService {
        name: text_at(map, "name").unwrap(),
        url: text_at(map, "url").unwrap(),
        interval_seconds: number_at(map, "interval_seconds"),
        timeout_seconds: number_at(map, "timeout_seconds"),
        method: text_at(map, "method"),
        acceptable_status: ranges_at(map, "acceptable_status"),
        follow_redirects: flag_at(map, "follow_redirects"),
        resolve_override: text_at(map, "resolve_override"),
    }
}

fn raw_config(yaml: &str) -> RawConfig {
    let root: Value = serde_yaml_ng::from_str(yaml).unwrap();
    let defaults = match root.get("defaults") {
        Some(map) => RawDefaults {
            interval_seconds: number_at(map, "interval_seconds"),
            timeout_seconds: number_at(map, "timeout_seconds"),
            method: text_at(map, "method"),
            acceptable_status: ranges_at(map, "acceptable_status"),
            follow_redirects: flag_at(map, "follow_redirects"),
            resolve_override: text_at(map, "resolve_override"),
        },
        None => RawDefaults::default(),
    };
    let services = match root.get("services") {
        Some(list) => list.as_sequence().unwrap().iter().map(raw_service).collect(),
        None => Vec::new(),
    };
    RawConfig { defaults, services }
}

fn services_from_str(yaml: &str, settings: &Settings) -> Result<Vec<ServiceConfig>, ConfigError> {
    resolve_services(raw_config(yaml), settings)
}

fn refusal(yaml: &str) -> String {
    services_from_str(yaml, &test_settings()).unwrap_err().message()
}

#[test]
fn full_config_with_defaults_and_overrides() {
    let yaml = r#"
defaults:
  interval_seconds: 30
  timeout_seconds: 10
  acceptable_status: [[200, 399]]
  resolve_override: "192.168.1.10:443"
services:
  - { name: portainer, url: https://portainer.example.com }
  - name: adguard
    url: https://adguard.example.com
    interval_seconds: 60
    acceptable_status: [[200, 299], [401, 401]]
    resolve_override: ""
"#;
    let svcs = services_from_str(yaml, &test_settings()).unwrap();
    assert_eq!(svcs.len(), 2);

    let p = &svcs[0];
    assert_eq!(p.name, "portainer");
    assert_eq!(p.interval, Duration::from_secs(30));
    assert_eq!(p.method, Method::GET.as_str());
    assert!(p.follow_redirects);
    assert_eq!(p.resolve_override, Some(addr("192.168.1.10:443")));
    assert!(p.is_acceptable(200));
    assert!(p.is_acceptable(302));
    assert!(!p.is_acceptable(503));

    let a = &svcs[1];
    assert_eq!(a.interval, Duration::from_secs(60));
    // Explicit empty string disables the inherited override.
    assert_eq!(a.resolve_override, None);
    assert!(a.is_acceptable(401));
    assert!(!a.is_acceptable(302));
}

#[test]
fn env_resolve_override_wins_over_file_default() {
    let yaml = r#"
defaults:
  resolve_override: "10.0.0.1:443"
services:
  - { name: a, url: https://a.example.com }
"#;
    let mut settings = test_settings();
    settings.resolve_override = Some(Some(addr("192.168.5.5:443")));
    let svcs = services_from_str(yaml, &settings).unwrap();
    assert_eq!(svcs[0].resolve_override, Some(addr("192.168.5.5:443")));

    // Explicitly disabled via empty env var.
    settings.resolve_override = Some(None);
    let svcs = services_from_str(yaml, &settings).unwrap();
    assert_eq!(svcs[0].resolve_override, None);
}

#[test]
fn rejects_a_file_override_that_is_no_address_whatever_the_environment_says() {
    let yaml = r#"
defaults:
  resolve_override: "portainer.local"
services:
  - { name: a, url: https://a.example.com }
"#;
    for env in [None, Some(None), Some(Some(addr("192.168.5.5:443")))] {
        let mut settings = test_settings();
        settings.resolve_override = env;
        let err = services_from_str(yaml, &settings).unwrap_err();
        assert!(matches!(err, ConfigError::Invalid(_)));
        assert_eq!(
            err.message(),
            "invalid config: defaults.resolve_override: expected an IP or IP:PORT (e.g. 192.168.1.10 or 192.168.1.10:443), got \"portainer.local\""
        );
    }
}

#[test]
fn overrides_read_back_from_their_usual_texts() {
    for (text, ip) in [
        ("192.168.1.10", IpAddr::V4(0xc0a8_010a)),
        ("::", IpAddr::V6(0)),
        ("::1", IpAddr::V6(1)),
        ("2001:db8::1:0:0:1", IpAddr::V6(0x2001_0db8_0000_0000_0001_0000_0000_0001)),
        ("1:0:3:4:5:6:7:8", IpAddr::V6(0x0001_0000_0003_0004_0005_0006_0007_0008)),
        ("fe80::", IpAddr::V6(0xfe80 << 112)),
        ("::ffff:192.168.1.10", IpAddr::V6(0xffff_c0a8_010a)),
    ] {
        let bare = SocketAddr { ip, port: 0, scope_id: 0 };
        let host = match ip {
            IpAddr::V4(_) => text.to_string(),
            IpAddr::V6(_) => format!("[{text}]"),
        };
        for (before, after) in [("", ""), (" ", "\t"), ("\u{3000}\n", "\u{a0} ")] {
            assert_eq!(
                parse_resolve_override(&format!("{before}{text}{after}")),
                Ok(Some(bare))
            );
            assert_eq!(
                parse_resolve_override(&format!("{before}{host}:443{after}")),
                Ok(Some(SocketAddr { port: 443, ..bare }))
            );
        }
    }
    assert_eq!(
        parse_resolve_override("[fe80::1%12]:80"),
        Ok(Some(SocketAddr { ip: IpAddr::V6(0xfe80 << 112 | 1), port: 80, scope_id: 12 }))
    );
}

#[test]
fn rejects_duplicate_names() {
    let yaml = r#"
services:
  - { name: a, url: https://a.example.com }
  - { name: a, url: https://b.example.com }
"#;
    let err = services_from_str(yaml, &test_settings()).unwrap_err();
    assert!(err.message().contains("duplicate service name"));
}

#[test]
fn rejects_bad_url_scheme_zero_interval_and_bad_range() {
    for (yaml, needle) in [
        (
            "services: [{ name: a, url: \"ftp://a.example.com\" }]",
            "scheme",
        ),
        (
            "services: [{ name: a, url: \"https://a.example.com\", interval_seconds: 0 }]",
            "interval_seconds",
        ),
        (
            "services: [{ name: a, url: \"https://a.example.com\", acceptable_status: [[399, 200]] }]",
            "invalid status range",
        ),
        ("services: [{ name: a, url: \"not a url\" }]", "invalid url"),
    ] {
        let err = services_from_str(yaml, &test_settings()).unwrap_err();
        assert!(
            err.message().contains(needle),
            "expected {needle:?} in error: {}",
            err.message()
        );
    }
}

#[test]
fn parses_resolve_override_forms() {
    assert_eq!(parse_resolve_override("").unwrap(), None);
    assert_eq!(parse_resolve_override("  ").unwrap(), None);
    assert_eq!(
        parse_resolve_override("192.168.1.10:443").unwrap(),
        Some(addr("192.168.1.10:443"))
    );
    // A bare IP has port 0, for which the client takes the port of the scheme.
    assert_eq!(
        parse_resolve_override("192.168.1.10").unwrap(),
        Some(addr("192.168.1.10:0"))
    );
    assert!(parse_resolve_override("portainer.local").is_err());
}

#[test]
fn empty_services_rejected() {
    let err = services_from_str("services: []", &test_settings()).unwrap_err();
    assert!(err.message().contains("no services configured"));
}

#[test]
fn refusals_word_for_word() {
    for (yaml, line) in [
        (
            "services: []",
            "invalid config: no services configured \u{2014} add at least one entry under `services:`",
        ),
        (
            "services: [{ name: \"  \", url: \"https://a.example.com\" }]",
            "invalid config: service with url \"https://a.example.com\" has an empty name",
        ),
        (
            "services: [{ name: a, url: \"http://a/\" }, { name: \" a \", url: \"http://b/\" }]",
            "invalid config: duplicate service name \"a\" \u{2014} names must be unique (they are Prometheus labels)",
        ),
        (
            "services: [{ name: a, url: \"ftp://a.example.com\" }]",
            "invalid config: service \"a\": url scheme must be http or https, got \"ftp\"",
        ),
        (
            "services: [{ name: a, url: \"not a url\" }]",
            "invalid config: service \"a\": invalid url \"not a url\": relative URL without a base",
        ),
        (
            "services: [{ name: a, url: \"http://a/\", interval_seconds: 0 }]",
            "invalid config: service \"a\": interval_seconds must be > 0",
        ),
        (
            "services: [{ name: a, url: \"http://a/\", timeout_seconds: 0 }]",
            "invalid config: service \"a\": timeout_seconds must be > 0",
        ),
        (
            "services: [{ name: a, url: \"http://a/\", method: \"G T\" }]",
            "invalid config: service \"a\": invalid HTTP method \"G T\"",
        ),
        (
            "services: [{ name: a, url: \"http://a/\", acceptable_status: [] }]",
            "invalid config: service \"a\": acceptable_status must not be empty",
        ),
        (
            "services: [{ name: a, url: \"http://a/\", acceptable_status: [[200, 299], [99, 600]] }]",
            "invalid config: service \"a\": invalid status range [99, 600] (need 100 <= low <= high <= 599)",
        ),
        (
            "services: [{ name: a, url: \"http://a/\", resolve_override: nowhere }]",
            "invalid config: service \"a\": resolve_override: expected an IP or IP:PORT (e.g. 192.168.1.10 or 192.168.1.10:443), got \"nowhere\"",
        ),
        (
            "{ defaults: { resolve_override: nowhere }, services: [{ name: a, url: \"http://a/\" }] }",
            "invalid config: defaults.resolve_override: expected an IP or IP:PORT (e.g. 192.168.1.10 or 192.168.1.10:443), got \"nowhere\"",
        ),
        (
            "{ defaults: { method: \"\" }, services: [{ name: a, url: \"http://a/\" }] }",
            "invalid config: defaults.method: invalid HTTP method \"\"",
        ),
        (
            "{ defaults: { acceptable_status: [] }, services: [{ name: a, url: \"http://a/\" }] }",
            "invalid config: service \"<defaults>\": acceptable_status must not be empty",
        ),
    ] {
        assert_eq!(refusal(yaml), line);
    }
}

#[test]
fn names_are_quoted_and_escaped() {
    let yaml = "services: [{ name: 'a\"b', url: \"ftp://x/\" }]";
    assert_eq!(
        refusal(yaml),
        "invalid config: service \"a\\\"b\": url scheme must be http or https, got \"ftp\""
    );
}

#[test]
fn first_refusal_is_reported() {
    let yaml = r#"
services:
  - { name: a, url: https://a.example.com, timeout_seconds: 0 }
  - { name: b, url: https://b.example.com, interval_seconds: 0 }
"#;
    assert_eq!(refusal(yaml), "invalid config: service \"a\": timeout_seconds must be > 0");
}

#[test]
fn built_in_defaults_apply() {
    let yaml = "services: [{ name: \" a \", url: \"https://a.example.com\" }]";
    let svcs = services_from_str(yaml, &test_settings()).unwrap();
    let a = &svcs[0];
    assert_eq!(a.name, "a");
    // A parsed URL is normalized.
    assert_eq!(a.url.text, "https://a.example.com/");
    assert_eq!(a.url.scheme, "https");
    assert_eq!(a.url.host.as_deref(), Some("a.example.com"));
    assert_eq!(a.interval, Duration::from_secs(30));
    assert_eq!(a.timeout, Duration::from_secs(10));
    assert_eq!(a.method, "GET");
    assert_eq!(a.acceptable_status, vec![(200, 399)]);
    assert!(a.follow_redirects);
    assert_eq!(a.resolve_override, None);
    assert!(!a.is_acceptable(199));
    assert!(a.is_acceptable(399));
    assert!(!a.is_acceptable(400));
}

#[test]
fn own_settings_win() {
    let yaml = r#"
defaults:
  interval_seconds: 5
  timeout_seconds: 6
  method: head
  acceptable_status: [[200, 204]]
  follow_redirects: false
  resolve_override: "10.0.0.1"
services:
  - { name: inherits, url: http://a.example.com }
  - name: own
    url: http://b.example.com
    interval_seconds: 7
    timeout_seconds: 8
    method: " post "
    acceptable_status: [[500, 599]]
    follow_redirects: true
    resolve_override: "[::1]:8443"
"#;
    let svcs = services_from_str(yaml, &test_settings()).unwrap();
    let names: Vec<&str> = svcs.iter().map(|s| s.name.as_str()).collect();
    assert_eq!(names, vec!["inherits", "own"]);

    let inherits = &svcs[0];
    assert_eq!(inherits.interval, Duration::from_secs(5));
    assert_eq!(inherits.timeout, Duration::from_secs(6));
    assert_eq!(inherits.method, "HEAD");
    assert_eq!(inherits.acceptable_status, vec![(200, 204)]);
    assert!(!inherits.follow_redirects);
    assert_eq!(inherits.resolve_override, Some(addr("10.0.0.1:0")));

    let own = &svcs[1];
    assert_eq!(own.interval, Duration::from_secs(7));
    assert_eq!(own.timeout, Duration::from_secs(8));
    assert_eq!(own.method, "POST");
    assert_eq!(own.acceptable_status, vec![(500, 599)]);
    assert!(own.follow_redirects);
    assert_eq!(own.resolve_override, Some(addr("[::1]:8443")));
}

#[test]
fn urls_are_accepted_by_scheme_and_host() {
    let parsed = |scheme: &str, host: Option<&str>| {
        Ok(Url {
            text: "text".to_string(),
            scheme: scheme.to_string(),
            host: host.map(|h| h.to_string()),
        })
    };
    assert!(accept_url("a", "raw", parsed("http", Some("h"))).is_ok());
    assert!(accept_url("a", "raw", parsed("https", Some("h"))).is_ok());
    assert_eq!(
        accept_url("a", "raw", parsed("http", None)).unwrap_err().message(),
        "invalid config: service \"a\": url \"raw\" has no host"
    );
    assert_eq!(
        accept_url("a", "raw", parsed("HTTP", Some("h"))).unwrap_err().message(),
        "invalid config: service \"a\": url scheme must be http or https, got \"HTTP\""
    );
    assert_eq!(
        accept_url("a", "raw", Err("why".to_string())).unwrap_err().message(),
        "invalid config: service \"a\": invalid url \"raw\": why"
    );
}

#[test]
fn a_service_is_resolved_against_what_came_before() {
    let defaults = resolve_defaults(&RawDefaults::default(), &test_settings()).unwrap();
    let raw = raw_config("services: [{ name: b, url: \"http://b/\" }]");
    let url = || {
        Ok(Url {
            text: "http://b/".to_string(),
            scheme: "http".to_string(),
            host: Some("b".to_string()),
        })
    };
    let seen = vec!["a".to_string()];
    let b = resolve_service(&defaults, &seen, &raw.services[0], url()).unwrap();
    assert_eq!(b.name, "b");
    assert_eq!(b.url.text, "http://b/");
    let seen = vec!["b".to_string()];
    assert!(resolve_service(&defaults, &seen, &raw.services[0], url()).is_err());
}

#[test]
fn methods_are_tokens_in_upper_case() {
    assert_eq!(parse_method("get").unwrap(), "GET");
    assert_eq!(parse_method(" Options\t").unwrap(), "OPTIONS");
    assert_eq!(parse_method("x-probe").unwrap(), "X-PROBE");
    assert_eq!(
        parse_method("a-method-of-more-than-fifteen-bytes").unwrap(),
        "A-METHOD-OF-MORE-THAN-FIFTEEN-BYTES"
    );
    for raw in ["", "  ", "G T", "GET/", "G\u{c9}T", "(get)"] {
        assert_eq!(
            parse_method(raw).unwrap_err(),
            format!("invalid HTTP method {raw:?}")
        );
    }
}

#[test]
fn status_ranges_have_bounds() {
    assert!(validate_status_ranges("a", &[(100, 599)]).is_ok());
    assert!(validate_status_ranges("a", &[(404, 404)]).is_ok());
    assert!(validate_status_ranges("a", &[]).is_err());
    assert!(validate_status_ranges("a", &[(99, 200)]).is_err());
    assert!(validate_status_ranges("a", &[(200, 600)]).is_err());
    assert!(validate_status_ranges("a", &[(201, 200)]).is_err());
    assert!(validate_status_ranges("a", &[(200, 200), (0, 0)]).is_err());
}

#[test]
fn copies_hold_the_same() {
    let settings = Settings::from_env(None, None, Some("10.1.2.3:4".to_string())).unwrap();
    let copy = settings.clone();
    assert_eq!(copy.config_path, settings.config_path);
    assert_eq!(copy.listen_addr, settings.listen_addr);
    assert_eq!(copy.resolve_override, settings.resolve_override);

    let yaml = r#"
services:
  - name: a
    url: https://a.example.com
    interval_seconds: 7
    timeout_seconds: 8
    method: head
    acceptable_status: [[200, 299], [401, 401]]
    follow_redirects: false
    resolve_override: "[::1]:8443"
"#;
    let svcs = services_from_str(yaml, &settings).unwrap();
    let copy = svcs[0].clone();
    assert_eq!(copy.name, "a");
    assert_eq!(copy.url.text, "https://a.example.com/");
    assert_eq!(copy.url.scheme, "https");
    assert_eq!(copy.url.host.as_deref(), Some("a.example.com"));
    assert_eq!(copy.interval, Duration::from_secs(7));
    assert_eq!(copy.timeout, Duration::from_secs(8));
    assert_eq!(copy.method, "HEAD");
    assert_eq!(copy.acceptable_status, vec![(200, 299), (401, 401)]);
    assert!(!copy.follow_redirects);
    assert_eq!(copy.resolve_override, Some(addr("[::1]:8443")));
}

#[test]
fn settings_fall_back() {
    let settings = Settings::from_env(None, None, None).unwrap();
    assert_eq!(settings.config_path, "/etc/uptime-exporter/config.yaml");
    assert_eq!(settings.listen_addr, addr("0.0.0.0:9184"));
    assert_eq!(settings.resolve_override, None);
}

#[test]
fn settings_come_from_the_environment() {
    let settings = Settings::from_env(
        Some("/tmp/c.yaml".to_string()),
        Some("[::]:80".to_string()),
        Some(" 10.1.2.3 ".to_string()),
    )
    .unwrap();
    assert_eq!(settings.config_path, "/tmp/c.yaml");
    assert_eq!(settings.listen_addr, addr("[::]:80"));
    assert_eq!(settings.resolve_override, Some(Some(addr("10.1.2.3:0"))));

    let disabled = Settings::from_env(None, None, Some(String::new())).unwrap();
    assert_eq!(disabled.resolve_override, Some(None));
}

#[test]
fn unusable_environment_is_refused() {
    let err = Settings::from_env(None, Some("localhost:80".to_string()), None).unwrap_err();
    assert_eq!(
        err.message(),
        "invalid environment variable UPTIME_LISTEN_ADDR=localhost:80: not a valid socket address: invalid socket address syntax"
    );
    let err = Settings::from_env(None, None, Some("x".to_string())).unwrap_err();
    assert!(matches!(err, ConfigError::InvalidEnv { .. }));
    assert_eq!(
        err.message(),
        "invalid environment variable UPTIME_RESOLVE_OVERRIDE=x: expected an IP or IP:PORT (e.g. 192.168.1.10 or 192.168.1.10:443), got \"x\""
    );
}

#[test]
fn files_are_read_parsed_and_resolved() {
    let settings = test_settings();
    let err = load_services(&settings, ConfigFile::Unreadable("gone".to_string())).unwrap_err();
    assert!(matches!(err, ConfigError::Read { .. }));
    assert_eq!(err.message(), "failed to read config file /dev/null: gone");

    let err = load_services(&settings, ConfigFile::Malformed("no map".to_string())).unwrap_err();
    assert!(matches!(err, ConfigError::Parse { .. }));
    assert_eq!(err.message(), "failed to parse config file /dev/null: no map");

    let raw = raw_config("services: [{ name: a, url: \"http://a/\" }]");
    let svcs = load_services(&settings, ConfigFile::Parsed(raw)).unwrap();
    assert_eq!(svcs.len(), 1);

    let err = load_services(&settings, ConfigFile::Parsed(raw_config("services: []"))).unwrap_err();
    assert!(matches!(err, ConfigError::Invalid(_)));
}
