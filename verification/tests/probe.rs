use uptime_exporter::addr::{IpAddr, SocketAddr};
use uptime_exporter::config::ServiceConfig;
use uptime_exporter::duration::Duration;
use uptime_exporter::probe::{
    classify_error, ProbeEvent, ProbeOutcome, ProbePhase, Prober, Redirects, TransportError,
};
use uptime_exporter::text::{decimal_text, trim};
use uptime_exporter::url::Url;

fn service(acceptable: Vec<(u16, u16)>) -> ServiceConfig {
    ServiceConfig {
        name: "test".to_string(),
        url: Url {
            text: "http://uptime-exporter-test.invalid:8080/".to_string(),
            scheme: "http".to_string(),
            host: Some("uptime-exporter-test.invalid".to_string()),
        },
        interval: Duration::from_secs(30),
        timeout: Duration::from_secs(2),
        method: "GET".to_string(),
        acceptable_status: acceptable,
        follow_redirects: false,
        resolve_override: None,
    }
}

fn error(message: &str, causes: Vec<&str>) -> TransportError {
    TransportError {
        is_timeout: false,
        is_connect: false,
        is_redirect: false,
        is_request: false,
        is_body: false,
        is_decode: false,
        message: message.to_string(),
        causes: causes.into_iter().map(|c| c.to_string()).collect(),
    }
}

fn run(prober: &Prober, events: Vec<ProbeEvent>) -> ProbeOutcome {
    let mut phase = ProbePhase::AwaitingHead;
    for event in events {
        phase = prober.probe(phase, event);
    }
    match phase {
        ProbePhase::Finished(outcome) => outcome,
        unfinished => panic!("{unfinished:?}"),
    }
}

fn answered(status: u16) -> Vec<ProbeEvent> {
    vec![
        ProbeEvent::Head { status, elapsed: Duration::from_millis(20) },
        ProbeEvent::Chunk,
        ProbeEvent::Chunk,
        ProbeEvent::End { elapsed: Duration::from_millis(35) },
    ]
}

#[test]
fn up_on_an_acceptable_status() {
    let prober = Prober::new(service(vec![(200, 399)]), "0.1.0");
    let outcome = run(&prober, answered(200));
    assert!(outcome.success);
    assert_eq!(outcome.status, Some(200));
    assert_eq!(outcome.ttfb, Some(Duration::from_millis(20)));
    assert_eq!(outcome.total, Duration::from_millis(35));
    assert_eq!(outcome.error, None);
}

#[test]
fn down_on_an_unacceptable_status() {
    let prober = Prober::new(service(vec![(200, 399)]), "0.1.0");
    let outcome = run(&prober, answered(503));
    assert!(!outcome.success);
    assert_eq!(outcome.status, Some(503));
    assert_eq!(outcome.error, Some("unacceptable HTTP status 503".to_string()));
}

#[test]
fn down_without_a_response() {
    let prober = Prober::new(service(vec![(200, 399)]), "0.1.0");
    let mut refused = error("error sending request", vec!["tcp connect error", "refused"]);
    refused.is_connect = true;
    refused.is_request = true;
    let outcome = run(
        &prober,
        vec![ProbeEvent::SendFailed { error: refused, elapsed: Duration::from_millis(3) }],
    );
    assert!(!outcome.success);
    assert_eq!(outcome.status, None);
    assert_eq!(outcome.ttfb, None);
    assert_eq!(outcome.total, Duration::from_millis(3));
    assert_eq!(
        outcome.error,
        Some("connect: error sending request: tcp connect error: refused".to_string())
    );
}

#[test]
fn down_on_a_broken_body() {
    let prober = Prober::new(service(vec![(200, 399)]), "0.1.0");
    let mut broken = error("reset", vec![]);
    broken.is_decode = true;
    let outcome = run(
        &prober,
        vec![
            ProbeEvent::Head { status: 200, elapsed: Duration::from_millis(1) },
            ProbeEvent::Chunk,
            ProbeEvent::BodyFailed { error: broken, elapsed: Duration::from_millis(9) },
        ],
    );
    assert!(!outcome.success);
    assert_eq!(outcome.status, Some(200));
    assert_eq!(outcome.ttfb, Some(Duration::from_millis(1)));
    assert_eq!(outcome.total, Duration::from_millis(9));
    assert_eq!(outcome.error, Some("body read failed: body: reset".to_string()));
}

#[test]
fn a_body_is_drained() {
    let prober = Prober::new(service(vec![(200, 399)]), "0.1.0");
    let head = ProbeEvent::Head { status: 204, elapsed: Duration::from_millis(7) };
    let phase = prober.probe(ProbePhase::AwaitingHead, head);
    let phase = prober.probe(phase, ProbeEvent::Chunk);
    match phase {
        ProbePhase::Draining { status, ttfb } => {
            assert_eq!(status, 204);
            assert_eq!(ttfb, Duration::from_millis(7));
        }
        other => panic!("{other:?}"),
    }
}

#[test]
fn categories_in_order() {
    let mut e = error("m", vec![]);
    assert_eq!(classify_error(&e), "other: m");
    e.is_decode = true;
    assert_eq!(classify_error(&e), "body: m");
    e.is_decode = false;
    e.is_body = true;
    assert_eq!(classify_error(&e), "body: m");
    e.is_request = true;
    assert_eq!(classify_error(&e), "request: m");
    e.is_redirect = true;
    assert_eq!(classify_error(&e), "redirect: m");
    e.is_connect = true;
    assert_eq!(classify_error(&e), "connect: m");
    e.is_timeout = true;
    assert_eq!(classify_error(&e), "timeout: m");
    e.causes = vec!["c".to_string(), "d".to_string()];
    assert_eq!(classify_error(&e), "timeout: m: c: d");
}

#[test]
fn a_client_without_reuse() {
    let prober = Prober::new(service(vec![(200, 399)]), "0.1.0");
    let plan = &prober.client;
    assert_eq!(plan.user_agent, "uptime-exporter/0.1.0");
    assert_eq!(plan.max_idle_per_host, 0);
    assert_eq!(plan.timeout, Duration::from_secs(2));
    assert_eq!(plan.connect_timeout, Duration::from_secs(2));
    assert_eq!(plan.redirects, Redirects::Off);
    assert_eq!(plan.pin, None);
}

#[test]
fn an_override_pins_the_host_of_the_url() {
    let addr = SocketAddr { ip: IpAddr::V4(0x7f00_0001), port: 8080, scope_id: 0 };
    let mut svc = service(vec![(200, 399)]);
    svc.resolve_override = Some(addr);
    svc.follow_redirects = true;
    let prober = Prober::new(svc, "0.1.0");
    assert_eq!(prober.client.pin, Some(("uptime-exporter-test.invalid".to_string(), addr)));
    assert_eq!(prober.client.redirects, Redirects::UpTo(10));
}

#[test]
fn numbers_in_decimal() {
    assert_eq!(decimal_text(0), "0");
    assert_eq!(decimal_text(7), "7");
    assert_eq!(decimal_text(503), "503");
    assert_eq!(decimal_text(u64::MAX), "18446744073709551615");
}

#[test]
fn white_space_is_trimmed() {
    for text in ["", " ", " a b ", "\t\u{a0}x\u{3000}\n", "\u{200b}y\u{200b}", "\u{85}z"] {
        assert_eq!(trim(text), text.trim());
    }
    for code in 0..=0x3100u32 {
        let c = char::from_u32(code).unwrap();
        assert_eq!(uptime_exporter::text::white_space(c), c.is_whitespace(), "{code}");
    }
}
