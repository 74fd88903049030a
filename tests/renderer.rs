use visio_core::renderer::{frame_loop_step, FrameLoopAction, FrameLoopEvent, TrackRendererRegistry};

#[test]
fn start_twice_replaces_renderer() {
    let mut reg = TrackRendererRegistry::new();
    assert!(reg.start("t1".to_string(), 0xA).is_none());
    let replaced = reg.start("t1".to_string(), 0xB).expect("first renderer replaced");
    assert_eq!(replaced.surface, 0xA);
    assert!(replaced.cancelled);
    assert_eq!(reg.len(), 1);
    assert_eq!(reg.surface_of("t1"), Some(0xB));
}

#[test]
fn stop_is_idempotent() {
    let mut reg = TrackRendererRegistry::new();
    assert!(reg.stop("unknown").is_none());
    reg.start("t1".to_string(), 1);
    reg.start("t2".to_string(), 2);
    let stopped = reg.stop("t1").unwrap();
    assert!(stopped.cancelled);
    assert_eq!(stopped.surface, 1);
    assert!(reg.stop("t1").is_none());
    assert_eq!(reg.len(), 1);
    assert_eq!(reg.surface_of("t2"), Some(2));
    assert_eq!(reg.surface_of("t1"), None);
}

#[test]
fn clear_cancels_every_renderer() {
    let mut reg = TrackRendererRegistry::new();
    reg.start("a".to_string(), 1);
    reg.start("b".to_string(), 2);
    let all = reg.clear();
    assert_eq!(all.len(), 2);
    assert!(all.iter().all(|h| h.cancelled));
    assert_eq!(reg.len(), 0);
}

#[test]
fn frame_loop_checks_cancellation_before_forwarding() {
    assert_eq!(frame_loop_step(false, FrameLoopEvent::Frame), FrameLoopAction::Forward);
    assert_eq!(frame_loop_step(false, FrameLoopEvent::Tick), FrameLoopAction::Wait);
    assert_eq!(frame_loop_step(true, FrameLoopEvent::Frame), FrameLoopAction::Exit);
    assert_eq!(frame_loop_step(true, FrameLoopEvent::Tick), FrameLoopAction::Exit);
    assert_eq!(frame_loop_step(false, FrameLoopEvent::Cancelled), FrameLoopAction::Exit);
    assert_eq!(frame_loop_step(false, FrameLoopEvent::StreamEnded), FrameLoopAction::Exit);
}

#[test]
fn frame_loop_forwards_every_frame() {
    let events = [FrameLoopEvent::Frame, FrameLoopEvent::Tick, FrameLoopEvent::Frame, FrameLoopEvent::Frame];
    let forwarded = events.iter().filter(|e| frame_loop_step(false, **e) == FrameLoopAction::Forward).count();
    assert_eq!(forwarded, 3);
}
