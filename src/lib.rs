//! Server-side core of a WebSocket tunnel: upgrade admission, tunnel dispatch,
//! the reverse-listener registry, the listener pump and TLS reload.

pub mod text;
pub mod admission;
pub mod tunnel;
pub mod registry;
pub mod tls;
pub mod upgrade;
