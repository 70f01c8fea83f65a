//! SIP signalling: transactions, dialogs, calls, registration, and the
//! transports they travel on.
//!
//! The crate decides; it does no input or output. Whatever arrives (a
//! datagram, a timer, an answer from the media plane) is handed to a function
//! that updates its state and returns what is to be done next. Clocks are read
//! by thin functions whose twins take the time as an argument.
//!
//! - [`txn`]: the four transaction machines of RFC 3261, the table that runs
//!   them, and the dialog machine.
//! - [`uas`]: answering calls.
//! - [`uac`]: placing them.
//! - [`auth`]: digest authentication, accounts and contact bindings.
//! - [`transport`]: framing, connection limits, proxies.
//! - [`webrtc`], [`webtransport`]: signalling frames of browsers.
//! - [`rate_limit`], [`response_router`], [`snapshot`]: the smaller parts.
//! - [`text`], [`table`], [`pair_map`], [`clock`], [`record`]: what they are
//!   built from.
//! - [`laws`], [`models`]: what the operations amount to, call by call.

pub mod auth;
pub mod clock;
pub mod error;
pub mod laws;
pub mod models;
pub mod pair_map;
pub mod rate_limit;
pub mod record;
pub mod response_router;
pub mod snapshot;
pub mod table;
pub mod text;
pub mod transport;
pub mod txn;
pub mod uac;
pub mod uas;
pub mod webrtc;
pub mod webtransport;

pub use error::Error;
pub use rate_limit::SipRateLimiter;
pub use response_router::ResponseRouter;
pub use snapshot::SnapshotError;
pub use transport::Datagram;
pub use txn::{
    ClientNonInviteTxn, Role, TransactionAction, TransactionDriver, TransactionEvent,
    TransactionState, TuEvent,
};
pub use uac::{UacClient, UacError};
pub use uas::{SessionTimerConfig, UasServer};
pub use webrtc::{
    WebRtcHandlerError, WebRtcListenError, WebRtcSession, WebRtcSessionHandler,
    WebSocketSignalingListener,
};
pub use webtransport::{NullWebTransportListener, WebTransportSessionId, WtSignal, WtSignalKind};
