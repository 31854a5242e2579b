//! Debouncing of hardware buttons.
//!
//! `PortDebouncer` debounces up to 32 pins packed into one `u32` port sample, in parallel;
//! `PinDebouncer` debounces a single boolean signal. Both are small state machines driven by
//! periodic `update` calls and read with `get_state`.
pub mod state;
pub mod pin;
pub mod pin_lemmas;
pub mod port;
pub mod port_lemmas;

pub use state::{BtnState, Error};
pub use pin::{PinDebouncer, PinView};
pub use port::{PortDebouncer, PortView};
