//! Messages of the protocol.

pub mod auth;
pub mod auth_laws;
pub mod auth_model;
pub mod connect;
pub mod connect_laws;
pub mod key_laws;
pub mod refuse;
pub mod refuse_error;
pub mod refuse_laws;
pub mod request_laws;
pub mod session_laws;

pub use auth::{AuthMessage, AuthPhase, ClientEnvironment, SessionData};
pub use connect::ConnectMessage;
pub use refuse::RefuseMessage;
