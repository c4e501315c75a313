use clipsync::classify::{ClipboardEvent, PathStatus, Snapshot};
use clipsync::image_codec::RawImage;
use clipsync::kind::ContentKind;
use clipsync::monitor::{Directive, Monitor, MonitorState, Signal};

fn text(s: &str) -> Snapshot {
    Snapshot { files: None, text: Some(s.to_string()), image: None }
}

fn checking() -> Monitor {
    let mut monitor = Monitor::new();
    assert_eq!(monitor.signal(Signal::Wake), Directive::RunCycle);
    monitor
}

#[test]
fn a_new_monitor_is_idle() {
    assert_eq!(Monitor::new().state(), MonitorState::Idle);
}

#[test]
fn a_wake_starts_a_cycle_and_its_end_leads_back_to_idle() {
    let mut monitor = Monitor::new();
    assert_eq!(monitor.signal(Signal::Wake), Directive::RunCycle);
    assert_eq!(monitor.state(), MonitorState::Checking);
    assert_eq!(monitor.signal(Signal::CycleDone), Directive::Wait);
    assert_eq!(monitor.state(), MonitorState::Idle);
    assert_eq!(monitor.signal(Signal::Wake), Directive::RunCycle);
}

#[test]
fn a_wake_during_a_cycle_waits_for_its_end() {
    let mut monitor = checking();
    assert_eq!(monitor.signal(Signal::Wake), Directive::Wait);
    assert_eq!(monitor.signal(Signal::Wake), Directive::Wait);
    assert_eq!(monitor.state(), MonitorState::Checking);
    assert_eq!(monitor.signal(Signal::CycleDone), Directive::RunCycle);
    assert_eq!(monitor.state(), MonitorState::Checking);
    assert_eq!(monitor.signal(Signal::CycleDone), Directive::Wait);
    assert_eq!(monitor.state(), MonitorState::Idle);
}

#[test]
fn the_end_of_no_cycle_changes_nothing() {
    let mut monitor = Monitor::new();
    assert_eq!(monitor.signal(Signal::CycleDone), Directive::Wait);
    assert_eq!(monitor.state(), MonitorState::Idle);
}

#[test]
fn a_stop_is_final() {
    for before in [Vec::new(), vec![Signal::Wake], vec![Signal::Wake, Signal::Wake]] {
        let mut monitor = Monitor::new();
        for signal in before {
            monitor.signal(signal);
        }
        assert_eq!(monitor.signal(Signal::Stop), Directive::Exit);
        assert_eq!(monitor.state(), MonitorState::Stopped);
        for signal in [Signal::Wake, Signal::CycleDone, Signal::Stop, Signal::Wake] {
            assert_eq!(monitor.signal(signal), Directive::Exit);
            assert_eq!(monitor.state(), MonitorState::Stopped);
        }
    }
}

#[test]
fn a_cycle_reports_a_change_once() {
    let mut monitor = checking();
    let first = monitor.check(text("A"), PathStatus::Missing);
    assert_eq!(first, Some(ClipboardEvent { kind: ContentKind::Text, payload: "A".to_string() }));
    monitor.signal(Signal::CycleDone);
    monitor.signal(Signal::Wake);
    assert_eq!(monitor.check(text("A"), PathStatus::Missing), None);
}

#[test]
fn a_then_b_then_a_gives_three_events() {
    let mut monitor = Monitor::new();
    let mut events = Vec::new();
    for payload in ["A", "B", "A"] {
        assert_eq!(monitor.signal(Signal::Wake), Directive::RunCycle);
        if let Some(event) = monitor.check(text(payload), PathStatus::Missing) {
            events.push(event.payload);
        }
        assert_eq!(monitor.signal(Signal::CycleDone), Directive::Wait);
    }
    assert_eq!(events, vec!["A", "B", "A"]);
}

#[test]
fn nothing_is_reported_outside_a_cycle() {
    let mut monitor = Monitor::new();
    assert_eq!(monitor.check(text("A"), PathStatus::Missing), None);
    monitor.signal(Signal::Wake);
    assert!(monitor.check(text("A"), PathStatus::Missing).is_some());
    monitor.signal(Signal::Stop);
    assert_eq!(monitor.check(text("B"), PathStatus::Missing), None);
}

#[test]
fn what_was_not_reported_is_not_remembered() {
    let mut monitor = checking();
    assert!(monitor.check(text("A"), PathStatus::Missing).is_some());
    let broken = RawImage { width: 1, height: 1, bytes: vec![] };
    let snapshot = Snapshot { files: None, text: None, image: Some(broken) };
    assert_eq!(monitor.check(snapshot, PathStatus::Missing), None);
    assert_eq!(monitor.check(Snapshot { files: None, text: None, image: None }, PathStatus::Missing), None);
    assert_eq!(monitor.check(text("A"), PathStatus::Missing), None);
}

#[test]
fn a_folder_is_reported_with_its_kind() {
    let mut monitor = checking();
    let snapshot = Snapshot { files: Some(vec!["C:\\Users\\test".to_string()]), text: None, image: None };
    let event = monitor.check(snapshot, PathStatus::Directory).unwrap();
    assert_eq!(event.kind.as_str(), "folder");
    assert_eq!(event.payload, "C:\\Users\\test");
}
