//! Decision logic of a headless Wayland compositor: id allocation, frame
//! pacing, input timestamps, keyboard, touch and text-input state, popup
//! grabs, per-window screens, clipboard and drag-and-drop negotiation, and
//! pixel-format conversion.
#![allow(unused_imports)]

pub mod surface_id;
pub mod frame_clock;
pub mod input_clock;
pub mod keyboard;
pub mod text_input;
pub mod clipboard;
pub mod pixels;
pub mod geometry;
pub mod timing;
pub mod dnd;
pub mod seat;
pub mod process;
pub mod foreign;
pub mod cursor;
pub mod frames;
pub mod outputs;
pub mod configure;
pub mod popup;
pub mod touch;
pub mod table;
pub mod commands;
