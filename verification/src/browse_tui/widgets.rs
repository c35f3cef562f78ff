//! The windows that lie over the browser.

pub mod pop_up;

pub use pop_up::{PopUp, PopUpState};
