//! Screen-lock orchestration for a Wayland session-lock client.
//!
//! The library holds the decisions of the lock client: which globals to bind,
//! how the lock handshake advances, which lock surfaces exist for which outputs,
//! how they are sized, paced and torn down, and when the session may be
//! unlocked. Each decision is a step from the current state and one input to
//! the next state and the requests the client must issue; the program around
//! the library performs those requests on the display connection.
//!
//! `model` states each step as a function on mathematical values, `app_data`
//! implements it, and `laws` proves what holds of every run.

pub mod app_data;
pub mod laws;
pub mod model;
pub mod output;
pub mod protocol;
pub mod registry;
pub mod renderer;
pub mod session;

pub use app_data::AppData;
pub use output::{Size, Surface};
pub use protocol::{Action, Event, Interface, LockError, CAP_KEYBOARD, CAP_POINTER, KEYMAP_XKB_V1};
pub use registry::classify_interface;
pub use session::LockState;
