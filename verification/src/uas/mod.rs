//! Answering calls.

pub mod compose;
pub mod offer;
pub mod parse;
pub mod reading;
pub mod retransmit;
pub mod server;
pub mod session_timer;
pub mod summary;
pub mod writing;

pub use server::UasServer;
pub use session_timer::SessionTimerConfig;
