use satoshiflow::filter::StreamFilter;
use satoshiflow::ledger::Ledger;
use satoshiflow::notification::NotificationType;
use satoshiflow::principal::PrincipalId;
use satoshiflow::stream::{StreamError, StreamStatus};

fn pid(b: u8) -> PrincipalId {
    PrincipalId::from_bytes(vec![b])
}

fn no_filter() -> StreamFilter {
    StreamFilter {
        status: None,
        min_amount: None,
        max_amount: None,
        min_duration: None,
        max_duration: None,
        sender: None,
        recipient: None,
        created_after: None,
        created_before: None,
    }
}

#[test]
fn ids_are_sequential_and_records_kept() {
    let mut l = Ledger::new();
    let a = l.create_stream(pid(1), pid(2), 3, 60, 500, Some("rent".to_string()), None, vec!["x".to_string()], 7);
    let b = l.create_stream(pid(2), pid(3), 4, 70, 600, None, Some("d".to_string()), Vec::new(), 8);
    assert_eq!((a, b), (0, 1));
    assert_eq!(l.stream_count(), 2);
    let s = l.get_stream(a).unwrap();
    assert_eq!(s.title.as_deref(), Some("rent"));
    assert_eq!(s.tags, vec!["x".to_string()]);
    assert_eq!((s.start_time, s.end_time, s.last_release_time, s.last_claim_time), (7, 67, 7, 7));
    assert_eq!(s.sender.bytes, vec![1]);
    assert_eq!(l.current_time(), 8);
    let notes = l.get_notifications(&pid(1));
    assert_eq!(notes.len(), 1);
    assert_eq!(notes[0].notification_type, NotificationType::StreamCreated);
    assert_eq!(notes[0].message, "Stream created successfully");
}

#[test]
fn listing_by_participant() {
    let mut l = Ledger::new();
    l.create_stream(pid(1), pid(2), 3, 60, 500, None, None, Vec::new(), 0);
    l.create_stream(pid(3), pid(4), 3, 60, 500, None, None, Vec::new(), 0);
    l.create_stream(pid(2), pid(5), 3, 60, 500, None, None, Vec::new(), 0);
    let ids: Vec<u64> = l.list_streams_for_user(&pid(2)).iter().map(|s| s.id).collect();
    assert_eq!(ids, vec![0, 2]);
    assert!(l.list_streams_for_user(&pid(9)).is_empty());
}

#[test]
fn search_applies_every_criterion() {
    let mut l = Ledger::new();
    l.create_stream(pid(1), pid(2), 3, 60, 500, None, None, Vec::new(), 10);
    l.create_stream(pid(1), pid(3), 3, 120, 900, None, None, Vec::new(), 20);
    l.create_stream(pid(4), pid(1), 3, 60, 100, None, None, Vec::new(), 30);
    l.create_stream(pid(4), pid(5), 3, 60, 100, None, None, Vec::new(), 30);
    let ids = |f: &StreamFilter, l: &Ledger| -> Vec<u64> { l.search_streams(f, &pid(1)).iter().map(|s| s.id).collect() };
    assert_eq!(ids(&no_filter(), &l), vec![0, 1, 2]);
    let f = StreamFilter { min_amount: Some(500), ..no_filter() };
    assert_eq!(ids(&f, &l), vec![0, 1]);
    let f = StreamFilter { max_amount: Some(500), min_duration: Some(61), ..no_filter() };
    assert_eq!(ids(&f, &l), Vec::<u64>::new());
    let f = StreamFilter { max_duration: Some(60), ..no_filter() };
    assert_eq!(ids(&f, &l), vec![0, 2]);
    let f = StreamFilter { sender: Some(pid(4)), ..no_filter() };
    assert_eq!(ids(&f, &l), vec![2]);
    let f = StreamFilter { recipient: Some(pid(3)), ..no_filter() };
    assert_eq!(ids(&f, &l), vec![1]);
    let f = StreamFilter { created_after: Some(15), created_before: Some(25), ..no_filter() };
    assert_eq!(ids(&f, &l), vec![1]);
    l.pause_stream(1, &pid(1)).unwrap();
    let f = StreamFilter { status: Some(StreamStatus::Paused), ..no_filter() };
    assert_eq!(ids(&f, &l), vec![1]);
}

#[test]
fn notifications_marked_read_by_owner_only() {
    let mut l = Ledger::new();
    l.create_stream(pid(1), pid(2), 3, 60, 500, None, None, Vec::new(), 0);
    assert!(!l.mark_notification_read(0, &pid(2)));
    assert!(!l.mark_notification_read(5, &pid(1)));
    assert!(l.mark_notification_read(0, &pid(1)));
    assert!(l.get_notifications(&pid(1))[0].read);
}

#[test]
fn statistics_on_create() {
    let mut l = Ledger::new();
    l.create_stream(pid(1), pid(2), 3, 100, 500, None, None, Vec::new(), 0);
    l.create_stream(pid(1), pid(3), 3, 51, 100, None, None, Vec::new(), 0);
    let g = l.get_global_stats();
    assert_eq!(g.total_streams_created, 2);
    assert_eq!(g.total_volume_locked, 600);
    assert_eq!(g.active_streams, 2);
    assert_eq!(g.average_stream_duration, 50);
    let u = l.get_user_stats(&pid(1)).unwrap();
    assert_eq!((u.streams_created, u.total_sent, u.avg_stream_size), (2, 600, 300));
    assert!(l.get_user_stats(&pid(2)).is_none());
}

#[test]
fn per_stream_statistics() {
    let mut l = Ledger::new();
    let id = l.create_stream(pid(1), pid(2), 10, 100, 1000, None, None, Vec::new(), 0);
    l.tick(30);
    l.claim_stream(id, &pid(2), 30).unwrap();
    l.tick(40);
    let st = l.get_stream_stats(id).unwrap();
    assert_eq!(st.total_volume_locked, 1000);
    assert_eq!(st.total_volume_claimed, 300);
    assert_eq!(st.active_streams, 1);
    assert_eq!(st.average_stream_duration, 100);
    assert!(l.get_stream_stats(1).is_none());
}

#[test]
fn templates_create_streams() {
    let mut l = Ledger::new();
    let t = l.create_template("salary".to_string(), "monthly".to_string(), 3600, 2, pid(1), 5);
    assert_eq!(t, 0);
    assert_eq!(l.create_stream_from_template(1, pid(1), pid(2), 100, 6), Err(StreamError::NotFound));
    let id = l.create_stream_from_template(t, pid(1), pid(2), 100, 6).unwrap();
    let s = l.get_stream(id).unwrap();
    assert_eq!((s.sats_per_sec, s.end_time, s.total_locked), (2, 3606, 100));
    let ts = l.list_templates();
    assert_eq!(ts.len(), 1);
    assert_eq!(ts[0].usage_count, 1);
    assert_eq!(ts[0].name, "salary");
    assert_eq!(ts[0].created_at, 5);
}

#[test]
fn principal_comparison() {
    assert!(pid(1).same_as(&pid(1)));
    assert!(!pid(1).same_as(&pid(2)));
    assert!(!PrincipalId::from_bytes(vec![1, 2]).same_as(&pid(1)));
    assert_eq!(pid(3).duplicate().bytes, vec![3]);
}
