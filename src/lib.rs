//! Layout and interaction engine for a canvas of audio-style control widgets
//! (knobs, sliders, buttons, meters, panels): integer pixel geometry,
//! containment of widgets in panels, deterministic non-overlapping placement,
//! a pointer-driven interaction state machine, and alignment snapping.

pub mod geometry;
pub mod widget;
pub mod canvas;
pub mod containment;
pub mod placement;
pub mod spawn;
pub mod snapping;
pub mod interaction;
pub mod session;
pub mod resize;
pub mod laws;
