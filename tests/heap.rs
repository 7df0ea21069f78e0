use kernel::heap::{checked_next_pow2, HeapAction, HeapEvent, HeapPhase, HeapRequest};

#[test]
fn next_pow2_values() {
    assert_eq!(checked_next_pow2(0), Some(1));
    assert_eq!(checked_next_pow2(1), Some(1));
    assert_eq!(checked_next_pow2(3), Some(4));
    assert_eq!(checked_next_pow2(4096), Some(4096));
    assert_eq!(checked_next_pow2(4097), Some(8192));
    assert_eq!(checked_next_pow2(1 << 63), Some(1 << 63));
    assert_eq!(checked_next_pow2((1 << 63) + 1), None);
    assert_eq!(checked_next_pow2(u64::MAX), None);
}

#[test]
fn served_by_pool() {
    let mut req = HeapRequest::new(24, 8);
    assert_eq!(req.phase(), HeapPhase::Local);
    let a = req.step(HeapEvent::Granted { addr: 0x1000, size: 24 });
    assert_eq!(a, HeapAction::Return(0x1000));
    assert_eq!(req.phase(), HeapPhase::Done);
}

#[test]
fn refused_request_pulls_one_frame() {
    let mut req = HeapRequest::new(5000, 16);
    assert_eq!(req.step(HeapEvent::Refused), HeapAction::PullFrame { size: 8192, align: 16 });
    assert_eq!(req.phase(), HeapPhase::Refill);
    assert_eq!(
        req.step(HeapEvent::Granted { addr: 0x8040_0000, size: 8192 }),
        HeapAction::TransferAndRetry { addr: 0x8040_0000, size: 8192 }
    );
    assert_eq!(req.phase(), HeapPhase::Retry);
    assert_eq!(req.step(HeapEvent::Granted { addr: 0x8040_0000, size: 5000 }), HeapAction::Return(0x8040_0000));
    assert_eq!(req.phase(), HeapPhase::Done);
}

#[test]
fn global_refusal_is_fatal() {
    let mut req = HeapRequest::new(1 << 40, 8);
    assert_eq!(req.step(HeapEvent::Refused), HeapAction::PullFrame { size: 1 << 40, align: 8 });
    assert_eq!(req.step(HeapEvent::Refused), HeapAction::Fail);
    assert_eq!(req.phase(), HeapPhase::Done);
}

#[test]
fn second_pool_refusal_is_fatal() {
    let mut req = HeapRequest::new(64, 8);
    req.step(HeapEvent::Refused);
    req.step(HeapEvent::Granted { addr: 0x2000, size: 64 });
    assert_eq!(req.step(HeapEvent::Refused), HeapAction::Fail);
    assert_eq!(req.step(HeapEvent::Refused), HeapAction::Fail);
}

#[test]
fn oversized_request_fails_at_once() {
    let mut req = HeapRequest::new(u64::MAX, 8);
    assert_eq!(req.step(HeapEvent::Refused), HeapAction::Fail);
    assert_eq!(req.phase(), HeapPhase::Done);
}
