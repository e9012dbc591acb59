use myshelltool::headless::ChannelEvent;
use myshelltool::monitor::{monitor_interval, MonitorRegistry, SampleCollector};

#[test]
fn interval_defaults_to_two_seconds() {
    assert_eq!(monitor_interval(0), 2000);
    assert_eq!(monitor_interval(500), 500);
}

#[test]
fn a_session_is_monitored_once() {
    let mut r: MonitorRegistry<u8, String> = MonitorRegistry::new();
    assert!(r.start("s1".into(), 1).is_ok());
    assert_eq!(
        r.start("s1".into(), 2).unwrap_err(),
        "resource_monitor_start: session s1 already monitored"
    );
    assert!(r.start("s2".into(), 3).is_ok());
    assert_eq!(r.active_sessions(), vec!["s1".to_string(), "s2".to_string()]);
    assert_eq!(r.stop("s1"), Some(1));
    assert_eq!(r.stop("s1"), None);
    assert_eq!(r.active_sessions(), vec!["s2".to_string()]);
}

#[test]
fn snapshots_and_cpu_counters_are_kept_per_session() {
    let mut r: MonitorRegistry<u8, String> = MonitorRegistry::new();
    r.start("s".into(), 0).unwrap();
    assert_eq!(r.prev_cpu("s"), None);
    assert_eq!(r.last_snapshot("s"), None);
    r.record_snapshot("s", "snap-1".into(), (10, 100));
    assert_eq!(r.prev_cpu("s"), Some((10, 100)));
    assert_eq!(r.last_snapshot("s").map(|s| s.as_str()), Some("snap-1"));
    r.record_snapshot("gone", "x".into(), (1, 2));
    assert_eq!(r.last_snapshot("gone"), None);
}

#[test]
fn sample_output_ends_at_eof() {
    let mut c = SampleCollector::new();
    assert!(c.on_event(ChannelEvent::Data(b"cpu ".to_vec())));
    assert!(c.on_event(ChannelEvent::ExtendedData(b"warn".to_vec())));
    assert!(c.on_event(ChannelEvent::Data(b"1 2".to_vec())));
    assert!(!c.on_event(ChannelEvent::Eof));
    assert_eq!(c.stdout, b"cpu 1 2".to_vec());
}
