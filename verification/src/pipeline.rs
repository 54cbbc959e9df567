//! Control logic of the capture, convert, encode, mux loop.
//!
//! The controller is a state machine over plain values: the surrounding
//! application performs the outside work — pulling frames, encoding,
//! muxing, sleeping — and feeds each outcome back in, while every decision
//! about what to do next is made and verified here.

use vstd::prelude::*;
use crate::clock::FrameClock;
use crate::clock::NANOS_PER_MILLISECOND;
use crate::clock::spec_pace;
use crate::clock::spec_should_stop;

verus! {

/// The controller's phase, from resource setup to the finalized container.
#[derive(Clone, Copy, PartialEq, Eq, Structural, Debug)]
pub enum PipelineState {
    Starting,
    Running,
    Draining,
    Finished,
}

/// Outcome of one attempt to pull a frame from the capture source.
#[derive(Clone, Copy, PartialEq, Eq, Structural, Debug)]
pub enum CaptureOutcome {
    /// A frame is ready to be converted and encoded.
    Frame,
    /// The source has no frame yet; not an error.
    WouldBlock,
    /// The source failed for good; the run must wind down.
    Fatal,
}

/// What the loop must do at the top of an iteration.
#[derive(Clone, Copy, PartialEq, Eq, Structural, Debug)]
pub enum LoopDecision {
    /// Keep going: pull the next frame.
    CaptureFrame,
    /// Stop capturing and drain the encoder.
    BeginDrain,
}

/// What to do with the outcome of a frame pull.
#[derive(Clone, Copy, PartialEq, Eq, Structural, Debug)]
pub enum FrameAction {
    /// Convert the frame and submit it to the encoder.
    EncodeFrame,
    /// Skip this iteration and proceed to pacing.
    SkipIteration,
    /// Abandon capture and drain what was already encoded.
    AbortToDrain,
}

/// What to do while draining the encoder's buffered output.
#[derive(Clone, Copy, PartialEq, Eq, Structural, Debug)]
pub enum DrainAction {
    /// Hand the ready packet to the muxer.
    ForwardPacket,
    /// Nothing is buffered any more: finalize the container.
    FinalizeContainer,
}

/// Drives one recording from `Starting` through `Running` and `Draining`
/// to `Finished`.
pub struct PipelineController {
    pub state: PipelineState,
    pub clock: FrameClock,
}

impl PipelineController {
    /// A controller that still has to acquire its outside resources.
    pub fn new(clock: FrameClock) -> (controller: PipelineController)
        ensures
            controller.state == PipelineState::Starting,
            controller.clock == clock,
    {
        PipelineController { state: PipelineState::Starting, clock }
    }

    /// The capture source, encoder and muxer are ready: start the loop.
    pub fn resources_ready(&mut self)
        requires
            old(self).state == PipelineState::Starting,
        ensures
            final(self).state == PipelineState::Running,
            final(self).clock == old(self).clock,
    {
        self.state = PipelineState::Running;
    }

    /// Decision at the top of an iteration: capture another frame, unless
    /// a stop was requested or the maximum duration has elapsed, in which
    /// case capture ends and draining begins.
    pub fn loop_decision(&mut self, stop_requested: bool, elapsed_ns: u64) -> (decision:
        LoopDecision)
        requires
            old(self).state == PipelineState::Running,
        ensures
            final(self).clock == old(self).clock,
            stop_requested || spec_should_stop(old(self).clock, elapsed_ns) ==> decision
                == LoopDecision::BeginDrain && final(self).state == PipelineState::Draining,
            !(stop_requested || spec_should_stop(old(self).clock, elapsed_ns)) ==> decision
                == LoopDecision::CaptureFrame && final(self).state == PipelineState::Running,
    {
        if stop_requested || self.clock.should_stop(elapsed_ns) {
            self.state = PipelineState::Draining;
            LoopDecision::BeginDrain
        } else {
            LoopDecision::CaptureFrame
        }
    }

    /// Decision on the outcome of a frame pull: encode a ready frame, skip
    /// silently when the source would block, and wind down on any other
    /// failure.
    pub fn frame_outcome(&mut self, outcome: CaptureOutcome) -> (action: FrameAction)
        requires
            old(self).state == PipelineState::Running,
        ensures
            final(self).clock == old(self).clock,
            outcome == CaptureOutcome::Frame ==> action == FrameAction::EncodeFrame
                && final(self).state == PipelineState::Running,
            outcome == CaptureOutcome::WouldBlock ==> action == FrameAction::SkipIteration
                && final(self).state == PipelineState::Running,
            outcome == CaptureOutcome::Fatal ==> action == FrameAction::AbortToDrain
                && final(self).state == PipelineState::Draining,
    {
        match outcome {
            CaptureOutcome::Frame => FrameAction::EncodeFrame,
            CaptureOutcome::WouldBlock => FrameAction::SkipIteration,
            CaptureOutcome::Fatal => {
                self.state = PipelineState::Draining;
                FrameAction::AbortToDrain
            },
        }
    }

    /// How long to sleep at the end of an iteration to honor the target
    /// frame rate.
    pub fn sleep_duration(&self, iteration_ns: u64) -> (sleep_ns: u64)
        requires
            self.state == PipelineState::Running,
        ensures
            sleep_ns as int == spec_pace(self.clock, iteration_ns),
    {
        self.clock.pace(iteration_ns)
    }

    /// Decision while draining: forward the next buffered packet while the
    /// encoder still yields one, then finalize the container.
    pub fn drain_step(&mut self, packet_available: bool) -> (action: DrainAction)
        requires
            old(self).state == PipelineState::Draining,
        ensures
            final(self).clock == old(self).clock,
            packet_available ==> action == DrainAction::ForwardPacket && final(self).state
                == PipelineState::Draining,
            !packet_available ==> action == DrainAction::FinalizeContainer && final(self).state
                == PipelineState::Finished,
    {
        if packet_available {
            DrainAction::ForwardPacket
        } else {
            self.state = PipelineState::Finished;
            DrainAction::FinalizeContainer
        }
    }
}

/// The presentation timestamp handed to the encoder: whole milliseconds
/// since the start of the recording.
pub fn presentation_timestamp_ms(elapsed_ns: u64) -> (ms: u64)
    ensures
        ms as int == elapsed_ns as int / NANOS_PER_MILLISECOND as int,
{
    elapsed_ns / NANOS_PER_MILLISECOND
}

} // verus!
