//! Core of a screen recorder: conversion of packed BGRA framebuffers to
//! planar YUV, frame pacing against a target frame rate, a cancellation
//! flag, and the control logic of the capture-to-encode loop.
//!
//! Everything here is pure logic over plain values. Display capture, video
//! encoding, container muxing and the threads that watch for a stop request
//! live in the surrounding application, which feeds their outcomes into the
//! decision functions of this crate.

pub mod cancel;
pub mod clock;
pub mod convert;
pub mod pipeline;
