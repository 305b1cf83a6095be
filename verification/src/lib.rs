pub mod derivation;
pub mod error;
pub mod event;
pub mod event_message;
pub mod prefix;
pub mod signing;
pub mod state;
pub mod util;
