use satoshiflow::ledger::Ledger;
use satoshiflow::milestone::MilestoneAction;
use satoshiflow::notification::NotificationType;
use satoshiflow::principal::PrincipalId;
use satoshiflow::stream::{fee_for, CancelResult, StreamError, StreamStatus, RECLAIM_TIMEOUT_SECS};

fn pid(b: u8) -> PrincipalId {
    PrincipalId::from_bytes(vec![b, 7, 7])
}

fn open(l: &mut Ledger, rate: u64, duration: u64, locked: u64, now: u64) -> u64 {
    l.create_stream(pid(1), pid(2), rate, duration, locked, None, None, Vec::new(), now)
}

#[test]
fn accrue_claim_then_complete() {
    let mut l = Ledger::new();
    let id = open(&mut l, 10, 100, 1000, 1000);
    l.tick(1050);
    let s = l.get_stream(id).unwrap();
    assert_eq!(s.total_released, 500);
    assert_eq!(s.buffer, 500);
    assert_eq!(s.status, StreamStatus::Active);
    assert_eq!(l.claim_stream(id, &pid(2), 1050), Ok(500));
    assert_eq!(l.get_stream(id).unwrap().buffer, 0);
    l.tick(1110);
    let s = l.get_stream(id).unwrap();
    assert_eq!(s.total_released, 1000);
    assert_eq!(s.buffer, 500);
    assert_eq!(s.status, StreamStatus::Completed);
    for who in [1u8, 2u8] {
        let notes = l.get_notifications(&pid(who));
        assert!(notes
            .iter()
            .any(|n| n.notification_type == NotificationType::StreamCompleted && n.stream_id == id && n.timestamp == 1110));
    }
}

#[test]
fn cancel_refunds_unused_less_fee() {
    let mut l = Ledger::new();
    let id = open(&mut l, 10, 1000, 1000, 0);
    l.tick(20);
    assert_eq!(l.get_stream(id).unwrap().total_released, 200);
    assert_eq!(l.cancel_stream(id, &pid(1)), Ok(CancelResult { refund: 792, fee: 8 }));
    assert_eq!(l.get_stream(id).unwrap().status, StreamStatus::Cancelled);
    assert_eq!(l.claim_stream(id, &pid(2), 30), Ok(200));
    assert_eq!(l.cancel_stream(id, &pid(1)), Err(StreamError::InvalidState));
}

#[test]
fn reclaim_waits_for_grace_period() {
    let mut l = Ledger::new();
    let id = open(&mut l, 10, 100, 1000, 0);
    l.tick(100);
    assert_eq!(l.get_stream(id).unwrap().buffer, 1000);
    assert_eq!(l.reclaim_unclaimed(id, &pid(1), 100 + 86400), Err(StreamError::TimeoutNotReached));
    assert_eq!(l.reclaim_unclaimed(id, &pid(1), 100 + 7 * 86400), Ok(1000));
    assert_eq!(l.get_stream(id).unwrap().buffer, 0);
    assert_eq!(l.reclaim_unclaimed(id, &pid(1), 100 + 8 * 86400), Err(StreamError::NothingToClaim));
    assert_eq!(RECLAIM_TIMEOUT_SECS, 7 * 24 * 60 * 60);
}

#[test]
fn reclaim_anchor_is_last_claim() {
    let mut l = Ledger::new();
    let id = open(&mut l, 10, 100, 1000, 0);
    l.tick(50);
    assert_eq!(l.claim_stream(id, &pid(2), 200), Ok(500));
    l.tick(300);
    assert_eq!(l.reclaim_unclaimed(id, &pid(1), 200 + RECLAIM_TIMEOUT_SECS - 1), Err(StreamError::TimeoutNotReached));
    assert_eq!(l.reclaim_unclaimed(id, &pid(1), 200 + RECLAIM_TIMEOUT_SECS), Ok(500));
}

#[test]
fn strangers_are_refused_and_nothing_changes() {
    let mut l = Ledger::new();
    let id = open(&mut l, 10, 100, 1000, 0);
    l.tick(10);
    let stranger = pid(9);
    assert_eq!(l.top_up_stream(id, &stranger, 5), Err(StreamError::Unauthorized));
    assert_eq!(l.pause_stream(id, &stranger), Err(StreamError::Unauthorized));
    assert_eq!(l.resume_stream(id, &stranger, 11), Err(StreamError::Unauthorized));
    assert_eq!(l.cancel_stream(id, &stranger), Err(StreamError::Unauthorized));
    assert_eq!(l.claim_stream(id, &stranger, 11), Err(StreamError::Unauthorized));
    assert_eq!(l.claim_stream(id, &pid(1), 11), Err(StreamError::Unauthorized));
    assert_eq!(l.reclaim_unclaimed(id, &stranger, 11), Err(StreamError::Unauthorized));
    assert_eq!(l.reclaim_unclaimed(id, &pid(2), 11), Err(StreamError::Unauthorized));
    let s = l.get_stream(id).unwrap();
    assert_eq!((s.total_locked, s.total_released, s.buffer, s.status), (1000, 100, 100, StreamStatus::Active));
}

#[test]
fn unknown_stream_is_not_found() {
    let mut l = Ledger::new();
    assert_eq!(l.top_up_stream(3, &pid(1), 5), Err(StreamError::NotFound));
    assert_eq!(l.pause_stream(3, &pid(1)), Err(StreamError::NotFound));
    assert_eq!(l.resume_stream(3, &pid(1), 1), Err(StreamError::NotFound));
    assert_eq!(l.cancel_stream(3, &pid(1)), Err(StreamError::NotFound));
    assert_eq!(l.claim_stream(3, &pid(2), 1), Err(StreamError::NotFound));
    assert_eq!(l.reclaim_unclaimed(3, &pid(1), 1), Err(StreamError::NotFound));
    assert!(l.get_stream(3).is_none());
}

#[test]
fn paused_interval_never_accrues() {
    let mut l = Ledger::new();
    let id = open(&mut l, 10, 1000, 10000, 0);
    l.tick(10);
    assert_eq!(l.pause_stream(id, &pid(1)), Ok(()));
    assert_eq!(l.pause_stream(id, &pid(1)), Err(StreamError::InvalidState));
    l.tick(500);
    let s = l.get_stream(id).unwrap();
    assert_eq!((s.total_released, s.buffer, s.status), (100, 100, StreamStatus::Paused));
    assert_eq!(l.resume_stream(id, &pid(1), 600), Ok(()));
    assert_eq!(l.resume_stream(id, &pid(1), 600), Err(StreamError::InvalidState));
    let s = l.get_stream(id).unwrap();
    assert_eq!((s.total_released, s.buffer, s.last_release_time), (100, 100, 600));
    l.tick(610);
    assert_eq!(l.get_stream(id).unwrap().total_released, 200);
}

#[test]
fn top_up_extends_headroom_only_while_active() {
    let mut l = Ledger::new();
    let id = open(&mut l, 10, 1000, 100, 0);
    assert_eq!(l.top_up_stream(id, &pid(1), 50), Ok(()));
    let s = l.get_stream(id).unwrap();
    assert_eq!((s.total_locked, s.sats_per_sec, s.end_time), (150, 10, 1000));
    l.tick(100);
    let s = l.get_stream(id).unwrap();
    assert_eq!((s.total_released, s.status), (150, StreamStatus::Completed));
    assert_eq!(l.top_up_stream(id, &pid(1), 50), Err(StreamError::NotActive));
}

#[test]
fn top_up_saturates() {
    let mut l = Ledger::new();
    let id = open(&mut l, 1, 10, u64::MAX - 1, 0);
    assert_eq!(l.top_up_stream(id, &pid(1), 5), Ok(()));
    assert_eq!(l.get_stream(id).unwrap().total_locked, u64::MAX);
}

#[test]
fn huge_rate_saturates_and_caps_at_locked() {
    let mut l = Ledger::new();
    let id = open(&mut l, u64::MAX, u64::MAX, 777, 5);
    assert_eq!(l.get_stream(id).unwrap().end_time, u64::MAX);
    l.tick(1000);
    let s = l.get_stream(id).unwrap();
    assert_eq!((s.total_released, s.buffer, s.status), (777, 777, StreamStatus::Completed));
}

#[test]
fn tick_without_elapsed_time_does_nothing() {
    let mut l = Ledger::new();
    let id = open(&mut l, 10, 100, 1000, 40);
    l.tick(40);
    let s = l.get_stream(id).unwrap();
    assert_eq!((s.total_released, s.last_release_time, s.status), (0, 40, StreamStatus::Active));
}

#[test]
fn zero_buffer_claim_is_refused() {
    let mut l = Ledger::new();
    let id = open(&mut l, 10, 100, 1000, 0);
    assert_eq!(l.claim_stream(id, &pid(2), 0), Err(StreamError::NothingToClaim));
}

#[test]
fn fee_rounds_to_nearest() {
    assert_eq!(fee_for(0), 0);
    assert_eq!(fee_for(49), 0);
    assert_eq!(fee_for(50), 1);
    assert_eq!(fee_for(149), 1);
    assert_eq!(fee_for(150), 2);
    assert_eq!(fee_for(800), 8);
    assert_eq!(fee_for(u64::MAX), 184467440737095516);
}

#[test]
fn milestone_fires_once_and_notifies_creator() {
    let mut l = Ledger::new();
    let id = open(&mut l, 10, 1000, 10000, 0);
    let m = l.add_milestone(id, 100, MilestoneAction::SendNotification("halfway".to_string()), pid(5));
    let quiet = l.add_milestone(id, 100, MilestoneAction::AutoClaim, pid(5));
    let later = l.add_milestone(id, 5000, MilestoneAction::SendNotification("later".to_string()), pid(5));
    assert_eq!((m, quiet, later), (0, 1, 2));
    l.tick(5);
    assert!(l.get_notifications(&pid(5)).is_empty());
    l.tick(10);
    l.tick(20);
    l.tick(30);
    let notes = l.get_notifications(&pid(5));
    assert_eq!(notes.len(), 1);
    assert_eq!(notes[0].message, "halfway");
    assert_eq!(notes[0].stream_id, id);
    assert_eq!(notes[0].timestamp, 10);
}

#[test]
fn milestone_check_directly() {
    let mut l = Ledger::new();
    l.add_milestone(4, 10, MilestoneAction::SendNotification("a".to_string()), pid(5));
    l.add_milestone(4, 30, MilestoneAction::SendNotification("b".to_string()), pid(6));
    l.check_and_execute_milestones(4, 20);
    l.check_and_execute_milestones(4, 20);
    l.check_and_execute_milestones(3, 100);
    assert_eq!(l.get_notifications(&pid(5)).len(), 1);
    assert_eq!(l.get_notifications(&pid(6)).len(), 0);
    l.check_and_execute_milestones(4, 30);
    assert_eq!(l.get_notifications(&pid(6)).len(), 1);
    assert_eq!(l.get_notifications(&pid(5)).len(), 1);
}

#[test]
fn released_less_buffer_is_what_was_withdrawn() {
    let mut l = Ledger::new();
    let id = open(&mut l, 7, 50, 300, 0);
    let mut withdrawn = 0u64;
    l.tick(3);
    withdrawn += l.claim_stream(id, &pid(2), 3).unwrap();
    l.tick(10);
    l.tick(11);
    withdrawn += l.claim_stream(id, &pid(2), 12).unwrap();
    l.tick(100);
    withdrawn += l.reclaim_unclaimed(id, &pid(1), 50 + RECLAIM_TIMEOUT_SECS).unwrap();
    let s = l.get_stream(id).unwrap();
    assert_eq!(s.total_released, 300);
    assert!(s.total_released <= s.total_locked);
    assert_eq!(s.total_released - s.buffer, withdrawn);
    assert_eq!(withdrawn, 300);
}

#[test]
fn released_and_release_time_never_go_back() {
    let mut l = Ledger::new();
    let id = open(&mut l, 3, 100, 1000, 0);
    let mut last = (0u64, 0u64);
    let mut check = |l: &Ledger| {
        let s = l.get_stream(id).unwrap();
        assert!(s.total_released >= last.0 && s.last_release_time >= last.1);
        last = (s.total_released, s.last_release_time);
    };
    l.tick(5);
    check(&l);
    l.pause_stream(id, &pid(1)).unwrap();
    check(&l);
    l.tick(9);
    check(&l);
    l.resume_stream(id, &pid(1), 20).unwrap();
    check(&l);
    l.claim_stream(id, &pid(2), 21).unwrap();
    check(&l);
    l.tick(30);
    check(&l);
    l.top_up_stream(id, &pid(1), 10).unwrap();
    check(&l);
    l.cancel_stream(id, &pid(1)).unwrap();
    l.tick(40);
    check(&l);
    assert_eq!(last, (45, 30));
}
