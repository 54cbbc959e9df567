use record_screen::cancel::CancellationSignal;
use record_screen::clock::FrameClock;
use record_screen::clock::interval_for_fps;
use record_screen::pipeline::CaptureOutcome;
use record_screen::pipeline::DrainAction;
use record_screen::pipeline::FrameAction;
use record_screen::pipeline::LoopDecision;
use record_screen::pipeline::PipelineController;
use record_screen::pipeline::PipelineState;
use record_screen::pipeline::presentation_timestamp_ms;

#[test]
fn should_stop_flips_once_bound_is_exceeded() {
    // A simulated monotonic clock advanced in steps: false up to and at
    // the bound, true strictly beyond it, and true ever after.
    let clock = FrameClock::new(Some(1_000), None);
    assert!(!clock.should_stop(0));
    assert!(!clock.should_stop(999));
    assert!(!clock.should_stop(1_000));
    assert!(clock.should_stop(1_001));
    assert!(clock.should_stop(50_000));
    assert!(clock.should_stop(u64::MAX));
}

#[test]
fn unbounded_clock_never_stops() {
    let clock = FrameClock::new(None, None);
    assert!(!clock.should_stop(0));
    assert!(!clock.should_stop(u64::MAX));
}

#[test]
fn pace_returns_residual_interval() {
    let clock = FrameClock::new(None, Some(100));
    assert_eq!(clock.pace(0), 100);
    assert_eq!(clock.pace(30), 70);
    assert_eq!(clock.pace(100), 0);
    // No catch-up for a slow iteration.
    assert_eq!(clock.pace(150), 0);
}

#[test]
fn pace_without_target_never_sleeps() {
    let clock = FrameClock::new(None, None);
    assert_eq!(clock.pace(0), 0);
    assert_eq!(clock.pace(12_345), 0);
}

#[test]
fn interval_from_frame_rate() {
    assert_eq!(interval_for_fps(1), 1_000_000_000);
    assert_eq!(interval_for_fps(60), 16_666_666);
    assert_eq!(interval_for_fps(1_000_000_000), 1);
}

#[test]
fn cancellation_starts_unset() {
    // No call sequence observes a spurious stop before any request.
    let signal = CancellationSignal::new();
    assert!(!signal.is_stopped());
    assert!(!signal.is_stopped());
}

#[test]
fn cancellation_latches_and_is_idempotent() {
    // Several control sources request a stop, in any order and number:
    // the flag is set afterwards and stays set.
    let mut signal = CancellationSignal::new();
    signal.signal_stop();
    assert!(signal.is_stopped());
    signal.signal_stop();
    signal.signal_stop();
    assert!(signal.is_stopped());
}

#[test]
fn pipeline_runs_to_finished() {
    let clock = FrameClock::new(Some(10_000), Some(100));
    let mut controller = PipelineController::new(clock);
    assert_eq!(controller.state, PipelineState::Starting);
    controller.resources_ready();
    assert_eq!(controller.state, PipelineState::Running);

    // A frame arrives and is encoded.
    assert_eq!(controller.loop_decision(false, 50), LoopDecision::CaptureFrame);
    assert_eq!(controller.frame_outcome(CaptureOutcome::Frame), FrameAction::EncodeFrame);
    assert_eq!(controller.sleep_duration(30), 70);

    // The source is not ready: the iteration is a silent no-op.
    assert_eq!(controller.loop_decision(false, 150), LoopDecision::CaptureFrame);
    assert_eq!(
        controller.frame_outcome(CaptureOutcome::WouldBlock),
        FrameAction::SkipIteration
    );
    assert_eq!(controller.state, PipelineState::Running);

    // A stop request ends capture and starts the drain.
    assert_eq!(controller.loop_decision(true, 250), LoopDecision::BeginDrain);
    assert_eq!(controller.state, PipelineState::Draining);
    assert_eq!(controller.drain_step(true), DrainAction::ForwardPacket);
    assert_eq!(controller.drain_step(true), DrainAction::ForwardPacket);
    assert_eq!(controller.drain_step(false), DrainAction::FinalizeContainer);
    assert_eq!(controller.state, PipelineState::Finished);
}

#[test]
fn pipeline_stops_when_duration_elapses() {
    let clock = FrameClock::new(Some(1_000), None);
    let mut controller = PipelineController::new(clock);
    controller.resources_ready();
    assert_eq!(controller.loop_decision(false, 1_000), LoopDecision::CaptureFrame);
    assert_eq!(controller.frame_outcome(CaptureOutcome::Frame), FrameAction::EncodeFrame);
    assert_eq!(controller.loop_decision(false, 1_001), LoopDecision::BeginDrain);
    assert_eq!(controller.state, PipelineState::Draining);
}

#[test]
fn pipeline_aborts_on_fatal_capture_error() {
    let clock = FrameClock::new(None, None);
    let mut controller = PipelineController::new(clock);
    controller.resources_ready();
    assert_eq!(controller.loop_decision(false, 10), LoopDecision::CaptureFrame);
    assert_eq!(controller.frame_outcome(CaptureOutcome::Fatal), FrameAction::AbortToDrain);
    assert_eq!(controller.state, PipelineState::Draining);
    assert_eq!(controller.drain_step(false), DrainAction::FinalizeContainer);
    assert_eq!(controller.state, PipelineState::Finished);
}

#[test]
fn presentation_timestamps_are_whole_milliseconds() {
    assert_eq!(presentation_timestamp_ms(0), 0);
    assert_eq!(presentation_timestamp_ms(999_999), 0);
    assert_eq!(presentation_timestamp_ms(1_000_000), 1);
    assert_eq!(presentation_timestamp_ms(2_500_000_000), 2_500);
}
