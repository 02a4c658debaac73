use corsairmi_mqtt::backoff::Backoff;
use corsairmi_mqtt::manager::{Action, Event, Manager, Phase};
use corsairmi_mqtt::pipeline::{SampleRetry, SampleWindow};

#[test]
fn backoff_doubles_and_caps() {
    let mut b = Backoff::new(5000, 3600000);
    assert_eq!(b.delay_ms(), 5000);
    b.on_failure();
    assert_eq!(b.delay_ms(), 10000);
    b.on_failure();
    assert_eq!(b.delay_ms(), 20000);
}

#[test]
fn backoff_after_twelve_failures_is_exactly_the_cap() {
    let mut b = Backoff::new(5000, 3600000);
    for _ in 0..12 {
        b.on_failure();
    }
    assert_eq!(b.delay_ms(), 3600000);
}

#[test]
fn backoff_never_exceeds_the_cap() {
    let mut b = Backoff::new(250, 300000);
    for _ in 0..64 {
        b.on_failure();
        assert!(b.delay_ms() <= 300000);
    }
    assert_eq!(b.delay_ms(), 300000);
}

#[test]
fn backoff_resets_on_success() {
    let mut b = Backoff::new(5000, 3600000);
    b.on_failure();
    b.on_failure();
    b.on_success();
    assert_eq!(b.delay_ms(), 5000);
}

#[test]
fn sample_retry_allows_a_fifth_attempt() {
    // four failures, then a success on the fifth attempt: never escalates
    let mut retry = SampleRetry::new();
    for _ in 0..4 {
        assert!(!retry.record_failure());
    }
    // the fifth attempt succeeds and the slot yields its reading
}

#[test]
fn sample_retry_escalates_on_the_sixth_failure() {
    let mut retry = SampleRetry::new();
    for _ in 0..5 {
        assert!(!retry.record_failure());
    }
    assert!(retry.record_failure());
}

#[test]
fn window_fills_and_clears() {
    let mut w = SampleWindow::new();
    assert_eq!(w.len(), 0);
    for _ in 0..15 {
        assert!(!w.is_full());
        w.push(1000);
    }
    assert!(w.is_full());
    w.clear();
    assert_eq!(w.len(), 0);
    assert!(!w.is_full());
}

#[test]
fn mean_of_identical_readings_is_the_reading() {
    // fifteen readings of 100.0 watts, as milliwatts
    let mut w = SampleWindow::new();
    for _ in 0..15 {
        w.push(100_000);
    }
    assert_eq!(w.mean_watts(), 100);
    assert_eq!(w.mean_payload(), "100");
}

#[test]
fn mean_of_one_to_fifteen_rounds_to_eight() {
    let mut w = SampleWindow::new();
    for watts in 1..=15u32 {
        w.push(watts * 1000);
    }
    assert_eq!(w.mean_watts(), 8);
    assert_eq!(w.mean_payload(), "8");
}

#[test]
fn mean_rounds_to_nearest() {
    let mut w = SampleWindow::new();
    w.push(1200);
    w.push(1300);
    // 1.25 watts rounds down
    assert_eq!(w.mean_payload(), "1");
    w.clear();
    w.push(1800);
    w.push(1900);
    // 1.85 watts rounds up
    assert_eq!(w.mean_payload(), "2");
}

#[test]
fn manager_retries_the_sensor_with_growing_delays() {
    let mut m = Manager::new();
    assert_eq!(m.phase, Phase::AcquiringSensor);
    assert_eq!(m.step(Event::SensorFailed), Action::AttemptSensor(5000));
    assert_eq!(m.step(Event::SensorFailed), Action::AttemptSensor(10000));
    assert_eq!(m.step(Event::SensorFailed), Action::AttemptSensor(20000));
    assert_eq!(m.phase, Phase::AcquiringSensor);
}

#[test]
fn manager_moves_to_the_broker_and_resets_the_sensor_backoff() {
    let mut m = Manager::new();
    m.step(Event::SensorFailed);
    m.step(Event::SensorFailed);
    assert_eq!(m.step(Event::SensorAcquired), Action::AttemptBroker(0));
    assert_eq!(m.phase, Phase::AcquiringBroker);
    assert_eq!(m.sensor_backoff.delay_ms(), 5000);
}

#[test]
fn broker_failure_reacquires_from_the_sensor_step() {
    let mut m = Manager::new();
    m.step(Event::SensorAcquired);
    assert_eq!(m.step(Event::BrokerFailed), Action::AttemptSensor(5000));
    assert_eq!(m.phase, Phase::AcquiringSensor);
    // the broker backoff grew while the sensor backoff did not
    m.step(Event::SensorAcquired);
    assert_eq!(m.step(Event::BrokerFailed), Action::AttemptSensor(10000));
}

#[test]
fn pipeline_failure_applies_the_settle_delay() {
    let mut m = Manager::new();
    m.step(Event::SensorAcquired);
    assert_eq!(m.step(Event::BrokerAcquired), Action::StartPipeline);
    assert_eq!(m.phase, Phase::Running);
    assert_eq!(m.step(Event::PipelineFailed), Action::AttemptSensor(250));
    assert_eq!(m.phase, Phase::AcquiringSensor);
}

#[test]
fn settle_delay_grows_across_pipeline_failures() {
    let mut m = Manager::new();
    m.step(Event::SensorAcquired);
    m.step(Event::BrokerAcquired);
    assert_eq!(m.step(Event::PipelineFailed), Action::AttemptSensor(250));
    m.step(Event::SensorAcquired);
    m.step(Event::BrokerAcquired);
    assert_eq!(m.step(Event::PipelineFailed), Action::AttemptSensor(500));
    m.step(Event::SensorAcquired);
    m.step(Event::BrokerAcquired);
    assert_eq!(m.step(Event::PipelineFailed), Action::AttemptSensor(1000));
}

#[test]
fn full_window_publishes_the_mean() {
    let mut w = SampleWindow::new();
    for _ in 0..15 {
        w.push(100_000);
    }
    let pkt = corsairmi_mqtt::pipeline::encode_mean_publish("power", &w).unwrap();
    let topic_len = ((pkt[2] as usize) << 8) | pkt[3] as usize;
    assert_eq!(&pkt[4..4 + topic_len], b"power");
    assert_eq!(&pkt[7 + topic_len..], b"100");
}

#[test]
fn mean_payload_renders_every_digit() {
    let mut w = SampleWindow::new();
    w.push(4_294_967_295);
    assert_eq!(w.mean_payload(), "4294967");
    w.clear();
    w.push(0);
    assert_eq!(w.mean_payload(), "0");
}
