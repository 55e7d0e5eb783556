use neelix::device::{get_matching_devices, Device, Opts};
use neelix::event::{DomainEvent, MediaInfo, Process};
use neelix::pipeline::Dispatcher;
use neelix::session::MediaSession;
use neelix::transport::{Delivery, Locator, TransportError};
use neelix::watcher::ProcessWatcher;

fn media(title: &str) -> MediaInfo {
    MediaInfo {
        title: Some(title.to_string()),
        artist: Some("A".to_string()),
        album: None,
        is_shuffle: None,
        artwork: None,
    }
}

fn seen(name: &str, pid: i32) -> Process {
    Process { name: name.to_string(), pid, is_running: true }
}

#[test]
fn same_stamp_twice_enqueues_once() {
    let mut s = MediaSession::new();
    assert!(s.on_media(Some(100), Some(media("x"))).is_some());
    assert!(s.on_media(Some(100), Some(media("x"))).is_none());
    assert!(s.on_media(Some(101), Some(media("y"))).is_some());
    assert_eq!(s.last_updated, Some(101));
}

#[test]
fn first_stamp_zero_is_not_a_duplicate() {
    let mut s = MediaSession::new();
    assert!(s.accept(Some(0)));
    assert!(!s.accept(Some(0)));
}

#[test]
fn updates_without_stamp_always_pass() {
    let mut s = MediaSession::new();
    assert!(s.accept(None));
    assert!(s.accept(None));
    assert_eq!(s.last_updated, None);
    assert!(s.on_media(Some(5), None).is_none());
    assert_eq!(s.last_updated, None);
    assert!(s.on_media(Some(5), Some(media("x"))).is_some());
    assert_eq!(s.last_updated, Some(5));
}

#[test]
fn watcher_reports_edges_only() {
    let mut w = ProcessWatcher::new(vec!["chrome.exe".to_string()]);
    let first = w.observe(&vec![seen("init", 1), seen("chrome.exe", 42)]);
    assert_eq!(first, vec![Process { name: "chrome.exe".to_string(), pid: 42, is_running: true }]);
    assert!(w.observe(&vec![seen("chrome.exe", 42)]).is_empty());
    assert!(w.observe(&vec![seen("chrome.exe", 42), seen("bash", 9)]).is_empty());
    let gone = w.observe(&vec![seen("bash", 9)]);
    assert_eq!(gone, vec![Process { name: "chrome.exe".to_string(), pid: 42, is_running: false }]);
    assert!(w.observe(&vec![]).is_empty());
}

#[test]
fn watcher_reports_in_watch_order() {
    let mut w = ProcessWatcher::new(vec!["a".to_string(), "b".to_string()]);
    let r = w.observe(&vec![seen("b", 2), seen("a", 1), seen("a", 3)]);
    assert_eq!(r, vec![
        Process { name: "a".to_string(), pid: 1, is_running: true },
        Process { name: "b".to_string(), pid: 2, is_running: true },
    ]);
    let r = w.observe(&vec![seen("a", 1)]);
    assert_eq!(r, vec![Process { name: "b".to_string(), pid: 2, is_running: false }]);
}

#[test]
fn full_source_makes_producer_wait() {
    let mut d: Dispatcher<u32> = Dispatcher::new(vec![5, 100]);
    for i in 0..5u32 {
        assert!(d.offer(0, i).is_ok());
    }
    assert_eq!(d.offer(0, 5), Err(5));
    assert_eq!(d.waiting_from(0), 5);
    assert!(d.offer(1, 50).is_ok());
    for i in 0..5u32 {
        assert_eq!(d.next(), Some((0, i)));
    }
    assert_eq!(d.next(), Some((1, 50)));
    assert_eq!(d.next(), None);
    assert!(d.offer(0, 5).is_ok());
}

#[test]
fn events_leave_in_arrival_order_across_sources() {
    let mut d: Dispatcher<&str> = Dispatcher::new(vec![2, 2]);
    d.offer(1, "proc-a").unwrap();
    d.offer(0, "media-a").unwrap();
    d.offer(1, "proc-b").unwrap();
    assert_eq!(d.sources(), 2);
    assert_eq!(d.next(), Some((1, "proc-a")));
    assert_eq!(d.next(), Some((0, "media-a")));
    assert_eq!(d.next(), Some((1, "proc-b")));
}

#[test]
fn delivery_writes_all_frames_in_order() {
    let e = DomainEvent::MediaUpdate(media("x"));
    let mut d = Delivery::for_event(&e);
    let mut written = Vec::new();
    while let Some(f) = d.next_frame() {
        written.push(f.clone());
        d.record(true);
    }
    assert_eq!(written.len(), 3);
    assert_eq!(written[0][3], 0x01);
    assert_eq!(d.outcome(), Some(Ok(())));
}

#[test]
fn failed_write_abandons_rest_of_event() {
    let e = DomainEvent::RawString(vec![1; 40]);
    let mut d = Delivery::for_event(&e);
    assert_eq!(d.outcome(), None);
    assert!(d.next_frame().is_some());
    d.record(true);
    assert!(d.next_frame().is_some());
    d.record(false);
    assert!(d.next_frame().is_none());
    assert_eq!(d.outcome(), Some(Err(TransportError::DeviceWriteFailed { frames_sent: 1 })));
}

#[test]
fn delivery_of_given_frames() {
    let mut d = Delivery::new(vec![vec![1; 32], vec![2; 32]]);
    assert_eq!(d.next_frame(), Some(&vec![1; 32]));
    d.record(true);
    assert_eq!(d.next_frame(), Some(&vec![2; 32]));
    d.record(true);
    assert_eq!(d.next_frame(), None);
    assert_eq!(d.outcome(), Some(Ok(())));
}

#[test]
fn watcher_watches_a_repeated_name_once() {
    let mut w = ProcessWatcher::new(vec!["a".to_string(), "a".to_string()]);
    let r = w.observe(&vec![seen("a", 4)]);
    assert_eq!(r, vec![Process { name: "a".to_string(), pid: 4, is_running: true }]);
}

#[test]
fn device_filter_by_ids() {
    let a = Device { vendor_id: 1, product_id: 2, usage_page: 3, usage: 4 };
    let b = Device { vendor_id: 1, product_id: 5, usage_page: 3, usage: 4 };
    let c = Device { vendor_id: 9, product_id: 2, usage_page: 3, usage: 4 };
    let all = vec![a, b, c];
    let opts = Opts { vendor_id: Some(1), product_id: Some(2), usage_page: None, usage: None };
    assert_eq!(get_matching_devices(opts, &all), vec![a]);
    let any = Opts { vendor_id: None, product_id: None, usage_page: None, usage: None };
    assert_eq!(get_matching_devices(any, &all), all);
    let vendor = Opts { vendor_id: Some(1), product_id: None, usage_page: None, usage: Some(4) };
    assert_eq!(get_matching_devices(vendor, &all), vec![a, b]);
}

#[test]
fn first_accepting_candidate_is_chosen() {
    let mut l = Locator::new(3);
    assert_eq!(l.next_candidate(), Some(0));
    l.record(false);
    assert_eq!(l.outcome(), None);
    assert_eq!(l.next_candidate(), Some(1));
    l.record(true);
    assert_eq!(l.next_candidate(), None);
    assert_eq!(l.outcome(), Some(Ok(1)));
}

#[test]
fn no_accepting_candidate_is_device_not_found() {
    let mut l = Locator::new(2);
    l.record(false);
    l.record(false);
    assert_eq!(l.next_candidate(), None);
    assert_eq!(l.outcome(), Some(Err(TransportError::DeviceNotFound)));
    assert_eq!(Locator::new(0).outcome(), Some(Err(TransportError::DeviceNotFound)));
}
