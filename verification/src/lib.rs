//! Verified core of the OpenSprig firmware: colour packing, the framebuffer
//! that the screen driver draws into, the on-screen keyboard, and the other
//! pieces of logic that the hardware drivers hand plain values to.

pub mod colour;
pub mod error;
pub mod keyboard;
pub mod text;
pub mod screen;
pub mod dpad_indicator;
pub mod bridge;
pub mod button;
pub mod loader;
pub mod speaker;
pub mod storage;
pub mod mutex_device;
pub mod chat;
