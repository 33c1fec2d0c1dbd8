//! Touchpad drawing: decoding of the kernel's input-event records into
//! touch gestures, the drawing-mode state machine and the line rasterizer.
pub mod canvas;
pub mod event;
pub mod line;
pub mod mode;
