//! Decision logic of a gamepad-to-device relay: mapping a trigger reading to a
//! steering angle, deciding when an angle is worth transmitting, encoding the
//! commands that go on the wire, and keeping a single haptic effect in step
//! with the transmitted angle.
//!
//! Nothing here performs input or output. Every operation takes plain values
//! and answers with the next state and the action its caller has to perform.

pub mod angle;
pub mod axis;
pub mod command;
pub mod control;
pub mod debounce;
pub mod feedback;
