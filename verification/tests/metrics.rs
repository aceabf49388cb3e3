use uptime_exporter::config::ServiceConfig;
use uptime_exporter::duration::Duration;
use uptime_exporter::metrics::{Metrics, MetricsError};
use uptime_exporter::probe::ProbeOutcome;
use uptime_exporter::server::{
    metrics_handler, metrics_reply, Reply, HEALTH_BODY, HEALTH_PATH, METRICS_PATH,
};
use uptime_exporter::url::Url;

fn named(name: &str, url: &str) -> ServiceConfig {
    ServiceConfig {
        name: name.to_string(),
        url: Url {
            text: url.to_string(),
            scheme: "https".to_string(),
            host: Some("grafana.example.com".to_string()),
        },
        interval: Duration::from_secs(30),
        timeout: Duration::from_secs(10),
        method: "GET".to_string(),
        acceptable_status: vec![(200, 399)],
        follow_redirects: true,
        resolve_override: None,
    }
}

fn svc() -> ServiceConfig {
    named("grafana", "https://grafana.example.com/")
}

fn up() -> ProbeOutcome {
    ProbeOutcome {
        success: true,
        status: Some(200),
        ttfb: Some(Duration::from_millis(120)),
        total: Duration::from_millis(300),
        error: None,
    }
}

fn down() -> ProbeOutcome {
    ProbeOutcome {
        success: false,
        status: None,
        ttfb: None,
        total: Duration::from_secs(10),
        error: Some("timeout".to_string()),
    }
}

fn scrape(metrics: &Metrics) -> String {
    let (text, _) = metrics.encode().unwrap();
    String::from_utf8(text).unwrap()
}

/// The lines of a scrape that show series.
fn series(metrics: &Metrics) -> Vec<String> {
    scrape(metrics).lines().filter(|l| !l.starts_with('#')).map(|l| l.to_string()).collect()
}

#[test]
fn records_and_encodes() {
    let mut metrics = Metrics::new("0.1.0").unwrap();
    let service = svc();
    metrics.initialize_service(&service);
    metrics.record(
        &service,
        &ProbeOutcome {
            success: true,
            status: Some(200),
            ttfb: Some(Duration::from_millis(120)),
            total: Duration::from_millis(300),
            error: None,
        },
    );

    let (buf, content_type) = metrics.encode().unwrap();
    let text = String::from_utf8(buf).unwrap();
    assert!(content_type.starts_with("text/plain"));
    assert!(text.contains(
        "uptime_probe_success{name=\"grafana\",url=\"https://grafana.example.com/\"} 1"
    ));
    assert!(text.contains("uptime_probe_http_status_code"));
    assert!(text.contains("phase=\"ttfb\""));
    assert!(text.contains("uptime_probe_total"));
    assert!(text.contains("uptime_build_info"));

    // Failure without a response: status 0, ttfb 0.
    metrics.record(
        &service,
        &ProbeOutcome {
            success: false,
            status: None,
            ttfb: None,
            total: Duration::from_secs(10),
            error: Some("timeout".into()),
        },
    );
    let (buf, _) = metrics.encode().unwrap();
    let text = String::from_utf8(buf).unwrap();
    assert!(text.contains(
        "uptime_probe_success{name=\"grafana\",url=\"https://grafana.example.com/\"} 0"
    ));
    assert!(text.contains(
        "uptime_probe_http_status_code{name=\"grafana\",url=\"https://grafana.example.com/\"} 0"
    ));
}

#[test]
fn starts_with_the_version_alone() {
    let metrics = Metrics::new("1.2.3").unwrap();
    assert_eq!(
        scrape(&metrics),
        "# HELP uptime_build_info Build information of uptime-exporter.\n\
         # TYPE uptime_build_info gauge\n\
         uptime_build_info{version=\"1.2.3\"} 1\n"
    );
    assert_eq!(metrics.encode().unwrap().1, "text/plain; version=0.0.4");
}

#[test]
fn visible_from_the_first_scrape() {
    let mut metrics = Metrics::new("1").unwrap();
    metrics.initialize_service(&svc());
    let labels = "name=\"grafana\"";
    let url = "url=\"https://grafana.example.com/\"";
    assert_eq!(
        series(&metrics),
        vec![
            "uptime_build_info{version=\"1\"} 1".to_string(),
            format!("uptime_probe_last_run_timestamp_seconds{{{labels},{url}}} 0"),
            format!("uptime_probe_total{{{labels},result=\"fail\",{url}}} 0"),
            format!("uptime_probe_total{{{labels},result=\"success\",{url}}} 0"),
        ]
    );
}

#[test]
fn every_series_of_a_probe() {
    let mut metrics = Metrics::new("1").unwrap();
    let service = svc();
    metrics.record_at(&service, &up(), Some(Duration { nanos: 1_700_000_000_250_000_000 }));
    let labels = "name=\"grafana\"";
    let url = "url=\"https://grafana.example.com/\"";
    assert_eq!(
        series(&metrics),
        vec![
            "uptime_build_info{version=\"1\"} 1".to_string(),
            format!("uptime_probe_duration_seconds{{{labels},phase=\"total\",{url}}} 0.3"),
            format!("uptime_probe_duration_seconds{{{labels},phase=\"ttfb\",{url}}} 0.12"),
            format!("uptime_probe_http_status_code{{{labels},{url}}} 200"),
            format!("uptime_probe_last_run_timestamp_seconds{{{labels},{url}}} 1700000000.25"),
            format!("uptime_probe_success{{{labels},{url}}} 1"),
            format!("uptime_probe_total{{{labels},result=\"success\",{url}}} 1"),
        ]
    );
    // A clock before the epoch shows no time.
    metrics.record_at(&service, &down(), None);
    let shown = series(&metrics);
    assert!(shown
        .contains(&format!("uptime_probe_last_run_timestamp_seconds{{{labels},{url}}} 0")));
    assert!(shown
        .contains(&format!("uptime_probe_duration_seconds{{{labels},phase=\"ttfb\",{url}}} 0")));
    assert!(shown
        .contains(&format!("uptime_probe_duration_seconds{{{labels},phase=\"total\",{url}}} 10")));
}

#[test]
fn help_texts() {
    let mut metrics = Metrics::new("1").unwrap();
    metrics.record_at(&svc(), &up(), None);
    let text = scrape(&metrics);
    for line in [
        "# HELP uptime_probe_success Whether the last probe of the service succeeded (1) or failed (0).\n# TYPE uptime_probe_success gauge\n",
        "# HELP uptime_probe_duration_seconds Duration of the last probe in seconds, by phase (ttfb, total). 0 for phases that were never reached.\n# TYPE uptime_probe_duration_seconds gauge\n",
        "# HELP uptime_probe_http_status_code HTTP status code of the last probe response; 0 if no response was received.\n# TYPE uptime_probe_http_status_code gauge\n",
        "# HELP uptime_probe_last_run_timestamp_seconds Unix timestamp of the last completed probe for this service.\n# TYPE uptime_probe_last_run_timestamp_seconds gauge\n",
        "# HELP uptime_probe_total Total number of probes performed, by result (success/fail).\n# TYPE uptime_probe_total counter\n",
    ] {
        assert!(text.contains(line), "{line}");
    }
}

#[test]
fn counters_count_probes() {
    let mut metrics = Metrics::new("1").unwrap();
    let service = svc();
    for _ in 0..3 {
        metrics.record_at(&service, &up(), None);
    }
    metrics.record_at(&service, &down(), None);
    metrics.record_at(&service, &down(), None);
    let shown = series(&metrics);
    let url = "url=\"https://grafana.example.com/\"";
    assert!(shown
        .contains(&format!("uptime_probe_total{{name=\"grafana\",result=\"success\",{url}}} 3")));
    assert!(shown
        .contains(&format!("uptime_probe_total{{name=\"grafana\",result=\"fail\",{url}}} 2")));
}

#[test]
fn counters_count_their_own_probes_among_others() {
    let mut metrics = Metrics::new("1").unwrap();
    let one = named("one", "https://one/");
    let two = named("two", "https://two/");
    metrics.record_at(&one, &up(), None);
    metrics.initialize_service(&two);
    metrics.record_at(&two, &down(), None);
    metrics.initialize_service(&one);
    metrics.record_at(&two, &up(), None);
    metrics.record_at(&one, &up(), None);
    let shown: Vec<String> =
        series(&metrics).into_iter().filter(|l| l.starts_with("uptime_probe_total")).collect();
    assert_eq!(
        shown,
        vec![
            "uptime_probe_total{name=\"one\",result=\"fail\",url=\"https://one/\"} 0".to_string(),
            "uptime_probe_total{name=\"one\",result=\"success\",url=\"https://one/\"} 2".to_string(),
            "uptime_probe_total{name=\"two\",result=\"fail\",url=\"https://two/\"} 1".to_string(),
            "uptime_probe_total{name=\"two\",result=\"success\",url=\"https://two/\"} 1".to_string(),
        ]
    );
}

#[test]
fn services_do_not_touch_each_other() {
    let mut metrics = Metrics::new("1").unwrap();
    let one = named("one", "https://one/");
    let two = named("two", "https://two/");
    metrics.record_at(&one, &up(), None);
    let before: Vec<String> =
        series(&metrics).into_iter().filter(|l| l.contains("\"one\"")).collect();
    metrics.initialize_service(&two);
    metrics.record_at(&two, &down(), None);
    let after: Vec<String> = series(&metrics)
        .into_iter()
        .filter(|l| l.contains("\"one\"") && !l.ends_with("result=\"fail\",url=\"https://one/\"} 0"))
        .collect();
    assert_eq!(before, after);
    assert!(series(&metrics).contains(
        &"uptime_probe_success{name=\"two\",url=\"https://two/\"} 0".to_string()
    ));
}

#[test]
fn labels_that_join_alike_share_a_series() {
    let mut metrics = Metrics::new("1").unwrap();
    metrics.record_at(&named("a", "http://h/?q=http://x/"), &up(), None);
    metrics.record_at(&named("ahttp://h/?q=", "http://x/"), &down(), None);
    let shown: Vec<String> =
        series(&metrics).into_iter().filter(|l| l.starts_with("uptime_probe_success")).collect();
    assert_eq!(
        shown,
        vec!["uptime_probe_success{name=\"a\",url=\"http://h/?q=http://x/\"} 0".to_string()]
    );
}

#[test]
fn the_clock_is_read() {
    let mut metrics = Metrics::new("1").unwrap();
    metrics.record(&svc(), &up());
    let shown = series(&metrics);
    let line = shown.iter().find(|l| l.starts_with("uptime_probe_last_run")).unwrap();
    let value: f64 = line.rsplit(' ').next().unwrap().parse().unwrap();
    assert!(value > 1_600_000_000.0);
}

#[test]
fn answers_with_the_metrics() {
    assert_eq!(METRICS_PATH, "/metrics");
    assert_eq!(HEALTH_PATH, "/healthz");
    assert_eq!(HEALTH_BODY, "ok");
    let metrics = Metrics::new("1").unwrap();
    match metrics_handler(&metrics) {
        Reply::Metrics { content_type, body } => {
            assert_eq!(content_type, "text/plain; version=0.0.4");
            assert_eq!(String::from_utf8(body).unwrap(), scrape(&metrics));
        }
        Reply::Failure { .. } => panic!("no metrics"),
    }
}

#[test]
fn answers_with_the_failure() {
    let failed = Err(MetricsError { message: "broken".to_string() });
    match metrics_reply(failed) {
        Reply::Failure { status, text } => {
            assert_eq!(status, 500);
            assert_eq!(text, "failed to encode metrics: broken");
        }
        Reply::Metrics { .. } => panic!("no failure"),
    }
    let encoded = Ok((b"text".to_vec(), "kind".to_string()));
    match metrics_reply(encoded) {
        Reply::Metrics { content_type, body } => {
            assert_eq!(content_type, "kind");
            assert_eq!(body, b"text".to_vec());
        }
        Reply::Failure { .. } => panic!("no metrics"),
    }
}
