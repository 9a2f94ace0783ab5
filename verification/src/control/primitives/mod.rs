//! Values of the protocol: authentication data, error kinds, events and
//! signals.

pub mod auth;
pub mod error;
pub mod event;
pub mod signal;

pub use auth::{AuthMethodSet, TorAuthData, TorAuthMethod, TorPreAuthInfo, COOKIE_LENGTH};
pub use error::TorErrorKind;
pub use event::{AsyncEvent, AsyncEventKind};
pub use signal::TorSignal;
