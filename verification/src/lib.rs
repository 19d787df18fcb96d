//! MindChat's platform-neutral domain core.

pub mod caps;
pub mod model;
pub mod proxy;
pub mod text;
pub mod rules;
pub mod state;
pub mod transport;
pub mod keyed;
pub mod extension;
pub mod clock;
pub mod coordinator;
pub mod laws;
pub mod addr;
pub mod xmpp;
pub mod store;
pub mod session;
pub mod connect;
pub mod registration;
pub mod persistence;
pub mod cipher;
pub mod ffi;
