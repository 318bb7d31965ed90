//! Input/output core of a pocket calculator: the logical keys, the keypad
//! grid and its message format, debounced matrix scanning, the event channel
//! between scanner and application, the three hardware facades, and the
//! application's run loop written against them.
//!
//! The scanner and the run loop live in two contexts that share nothing but
//! the channel. Neither touches a peripheral here: the scanner says which line
//! to drive or read next and is told what came of it, and the run loop speaks
//! to the display, the keypad and the system through the facades in
//! [`hardware`].

pub mod buffer;
pub mod channel;
pub mod debounce;
pub mod display;
pub mod frame;
pub mod grid;
pub mod hardware;
pub mod key;
pub mod keypad;
pub mod pass;
pub mod scanner;
pub mod session;
pub mod system;

pub use crate::frame::Color;
pub use crate::session::run;
