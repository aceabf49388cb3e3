use uptime_exporter::duration::Duration;
use uptime_exporter::scheduler::{
    jitter_bound, run_prober, start_prober, startup_jitter, Notice, ProberAction, ProberEvent,
    ProberState, Stage,
};

#[test]
fn jitter_stays_below_interval_and_bound() {
    assert_eq!(jitter_bound(Duration::from_secs(30)), 5000);
    assert_eq!(jitter_bound(Duration::from_secs(5)), 5000);
    assert_eq!(jitter_bound(Duration::from_millis(250)), 250);
    assert_eq!(jitter_bound(Duration { nanos: 999_999 }), 1);
    assert_eq!(jitter_bound(Duration { nanos: 0 }), 1);
    for _ in 0..200 {
        assert!(startup_jitter(Duration::from_secs(30)).as_millis() < 5000);
        assert!(startup_jitter(Duration::from_millis(3)).as_millis() < 3);
        assert_eq!(startup_jitter(Duration::from_millis(1)), Duration::from_millis(0));
    }
}

#[test]
fn jitter_varies() {
    let first = startup_jitter(Duration::from_secs(5));
    assert!((0..200).any(|_| startup_jitter(Duration::from_secs(5)) != first));
}

#[test]
fn spans_of_time() {
    assert_eq!(Duration::from_secs(2).nanos, 2_000_000_000);
    assert_eq!(Duration::from_millis(1500).as_millis(), 1500);
    assert_eq!(Duration::from_millis(1500).as_secs(), 1);
    assert_eq!(Duration::from_millis(1500).subsec_nanos(), 500_000_000);
    let (short, long) = (Duration::from_millis(1), Duration::from_secs(1));
    assert_eq!(short.min(long), short);
    assert_eq!(long.min(short), short);
}

fn notices(outcomes: Vec<bool>) -> Vec<Notice> {
    let (state, _) = start_prober(Duration::from_secs(30));
    let (mut state, action) = run_prober(state, ProberEvent::Timer);
    assert_eq!(action, ProberAction::AwaitTick);
    let mut seen = Vec::new();
    for success in outcomes {
        let (probing, action) = run_prober(state, ProberEvent::Timer);
        assert_eq!(action, ProberAction::Probe);
        let (waiting, action) = run_prober(probing, ProberEvent::Probed { success });
        match action {
            ProberAction::Record(notice) => seen.push(notice),
            other => panic!("{other:?}"),
        }
        state = waiting;
    }
    seen
}

#[test]
fn recoveries_are_noted_once() {
    assert_eq!(
        notices(vec![true, false, false, true, true, false, true]),
        vec![
            Notice::Quiet,
            Notice::Failed,
            Notice::Failed,
            Notice::Recovered,
            Notice::Quiet,
            Notice::Failed,
            Notice::Recovered,
        ]
    );
    assert_eq!(notices(vec![false]), vec![Notice::Failed]);
}

#[test]
fn shutdown_ends_the_loop() {
    let (starting, delay) = start_prober(Duration::from_secs(1));
    assert_eq!(starting, ProberState { stage: Stage::Starting, was_healthy: None });
    assert!(delay.as_millis() < 1000);
    let (stopped, action) = run_prober(starting, ProberEvent::Shutdown);
    assert_eq!(stopped.stage, Stage::Stopped);
    assert_eq!(action, ProberAction::Stop);

    let waiting = ProberState { stage: Stage::Waiting, was_healthy: Some(false) };
    let (stopped, action) = run_prober(waiting, ProberEvent::Shutdown);
    assert_eq!(stopped, ProberState { stage: Stage::Stopped, was_healthy: Some(false) });
    assert_eq!(action, ProberAction::Stop);
}
