use dog_detector::context::{Context, DetectionState};

#[test]
fn new_starts_scanning() {
    let c = Context::new(30, 90, 5);
    assert_eq!(c.state, DetectionState::Running);
    assert_eq!(c.detected_count, 0);
    assert_eq!(c.detected_threshold, 5);
    assert_eq!(c.stream_duration, 30);
    assert_eq!(c.pause_duration, 90);
}

#[test]
fn exactly_threshold_positives_do_not_stream() {
    let mut c = Context::new(30, 90, 5);
    for t in 0..5u64 {
        let s = c.next(t, true);
        assert_eq!(s, DetectionState::Detected(t));
    }
    assert_eq!(c.detected_count, 5);
    assert!(c.is_detected());
}

#[test]
fn threshold_plus_one_positives_stream_once() {
    let mut c = Context::new(30, 90, 5);
    for t in 0..5u64 {
        let s = c.next(t, true);
        assert!(!matches!(s, DetectionState::Streaming(_)));
    }
    let s = c.next(5, true);
    assert_eq!(s, DetectionState::Streaming(5));
    assert_eq!(c.detected_count, 0);
}

#[test]
fn single_negative_resets_progress() {
    let mut c = Context::new(30, 90, 5);
    for t in 0..4u64 {
        c.next(t, true);
    }
    assert_eq!(c.detected_count, 4);
    let s = c.next(4, false);
    assert_eq!(s, DetectionState::Running);
    assert_eq!(c.detected_count, 0);
    // the debounce sequence must restart from zero
    for t in 5..10u64 {
        let s = c.next(t, true);
        assert_eq!(s, DetectionState::Detected(t));
    }
    let s = c.next(10, true);
    assert_eq!(s, DetectionState::Streaming(10));
}

#[test]
fn streaming_self_terminates() {
    let mut c = Context::new(30, 90, 5);
    c.state = DetectionState::Streaming(10);
    // within the window the state is unchanged
    let s = c.next(40, false);
    assert_eq!(s, DetectionState::Streaming(10));
    // one tick past the window ends the stream
    let s = c.next(41, false);
    assert_eq!(s, DetectionState::StreamEnd);
    // and the next tick begins the cooldown
    let s = c.next(42, false);
    assert_eq!(s, DetectionState::Paused(42));
}

#[test]
fn cooldown_self_terminates() {
    let mut c = Context::new(30, 90, 5);
    c.state = DetectionState::Paused(100);
    let s = c.next(190, false);
    assert_eq!(s, DetectionState::Paused(100));
    let s = c.next(191, false);
    assert_eq!(s, DetectionState::Running);
    assert_eq!(c.detected_count, 0);
}

#[test]
fn acknowledge_overrides_streaming() {
    let mut c = Context::new(30, 90, 5);
    c.state = DetectionState::Streaming(10);
    c.detected_count = 0;
    // barely into the streaming window, the override still pre-empts it
    c.acknowledge(12);
    assert_eq!(c.state, DetectionState::Paused(12));
    assert_eq!(c.detected_count, 0);
}

#[test]
fn acknowledge_overrides_any_state() {
    let mut c = Context::new(30, 90, 5);
    c.next(0, true);
    c.next(1, true);
    assert_eq!(c.detected_count, 2);
    c.acknowledge(2);
    assert_eq!(c.state, DetectionState::Paused(2));
    assert_eq!(c.detected_count, 0);
}

#[test]
fn backwards_clock_causes_no_transition() {
    let mut c = Context::new(30, 90, 5);
    c.state = DetectionState::Streaming(100);
    // a reading before the stored timestamp keeps the state
    let s = c.next(5, false);
    assert_eq!(s, DetectionState::Streaming(100));
    c.state = DetectionState::Paused(100);
    let s = c.next(5, false);
    assert_eq!(s, DetectionState::Paused(100));
}

#[test]
fn full_scenario_six_positives_stream_pause_resume() {
    // threshold 5, streaming window 30 s, cooldown window 90 s
    let mut c = Context::new(30, 90, 5);
    // six consecutive positive classifications at t = 0..5 s
    for t in 0..5u64 {
        let s = c.next(t, true);
        assert!(!matches!(s, DetectionState::Streaming(_)));
    }
    let s = c.next(5, true);
    let since = match s {
        DetectionState::Streaming(at) => at,
        other => panic!("expected streaming, got {:?}", other),
    };
    // the stream starts at the tick of the positive that confirmed it
    assert_eq!(since, 5);
    // frames are emitted for every cycle until the window has elapsed
    let mut t = 6;
    loop {
        let s = c.next(t, false);
        if t <= since + 30 {
            assert_eq!(s, DetectionState::Streaming(since));
        } else {
            assert_eq!(s, DetectionState::StreamEnd);
            break;
        }
        t += 1;
    }
    // one stream-end cycle, then cooling down until 90 s later
    t += 1;
    let s = c.next(t, false);
    assert_eq!(s, DetectionState::Paused(t));
    let paused_at = t;
    while t <= paused_at + 90 {
        let s = c.next(t, false);
        assert_eq!(s, DetectionState::Paused(paused_at));
        t += 1;
    }
    let s = c.next(paused_at + 91, false);
    assert_eq!(s, DetectionState::Running);
}
