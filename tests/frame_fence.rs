use vr_renderer::error::RenderError;
use vr_renderer::fence::{FlushOutcome, FrameFence};

#[test]
fn new_fence_is_complete() {
    let f = FrameFence::new();
    assert!(f.is_complete());
    assert_eq!(f.next_frame(), 0);
}

#[test]
fn flushed_frames_are_tracked_until_done() {
    let mut f = FrameFence::new();
    assert_eq!(f.finish_frame(FlushOutcome::Flushed), Ok(()));
    assert_eq!(f.finish_frame(FlushOutcome::Flushed), Ok(()));
    assert!(!f.is_complete());
    assert_eq!(f.next_frame(), 2);
    f.cleanup_finished(None);
    assert!(!f.is_complete());
    f.cleanup_finished(Some(0));
    assert!(!f.is_complete());
    f.cleanup_finished(Some(1));
    assert!(f.is_complete());
}

#[test]
fn out_of_date_resets_to_sentinel_and_heals() {
    let mut f = FrameFence::new();
    assert_eq!(f.finish_frame(FlushOutcome::Flushed), Ok(()));
    assert_eq!(f.finish_frame(FlushOutcome::OutOfDate), Ok(()));
    assert!(f.is_complete());
    f.cleanup_finished(None);
    assert!(f.is_complete());
    assert_eq!(f.finish_frame(FlushOutcome::Flushed), Ok(()));
    assert_eq!(f.next_frame(), 3);
}

#[test]
fn other_flush_failures_are_reported() {
    let mut f = FrameFence::new();
    let r = f.finish_frame(FlushOutcome::Failed("device lost".to_string()));
    assert_eq!(r, Err(RenderError::FlushError("device lost".to_string())));
    assert!(f.is_complete());
}

#[test]
fn repeated_frames_stay_bounded() {
    let mut f = FrameFence::new();
    for k in 0u64..100 {
        let done = if k >= 2 { Some(k - 2) } else { None };
        f.cleanup_finished(done);
        if k >= 2 {
            assert_eq!(f.in_flight_count(), 1);
        }
        assert_eq!(f.finish_frame(FlushOutcome::Flushed), Ok(()));
    }
    assert_eq!(f.in_flight_count(), 2);
    f.cleanup_finished(Some(99));
    assert!(f.is_complete());
}

#[test]
fn reset_leaves_a_sentinel() {
    let mut f = FrameFence::new();
    assert_eq!(f.finish_frame(FlushOutcome::Flushed), Ok(()));
    f.reset();
    assert!(f.is_complete());
    assert_eq!(f.next_frame(), 1);
}
