//! Database Resident Connection Pooling (DRCP) support
//!
//! DRCP is Oracle's server-side connection pooling feature that allows multiple
//! client connections to share a smaller pool of server processes, reducing
//! resource usage on the database server.

use crate::error::opt_text;
use vstd::prelude::*;

verus! {

/// Session purity for DRCP connections
///
/// Controls whether to get a fresh session or allow reusing an existing one.
#[derive(Debug, Clone, Copy, PartialEq, Eq, Structural)]
pub enum SessionPurity {
    /// Allow reusing an existing session (default)
    Default,
    /// Request a brand new session
    New,
    /// Request an existing session (fail if none available)
    Self_,
}

impl Default for SessionPurity {
    fn default() -> (purity: Self)
        ensures
            purity == SessionPurity::Default,
    {
        SessionPurity::Default
    }
}

/// Session release mode for DRCP
#[derive(Debug, Clone, Copy, PartialEq, Eq, Structural)]
pub enum ReleaseMode {
    /// Normal release back to pool
    Normal,
    /// Release with deauthentication
    Deauthenticate,
}

impl Default for ReleaseMode {
    fn default() -> (mode: Self)
        ensures
            mode == ReleaseMode::Normal,
    {
        ReleaseMode::Normal
    }
}

impl ReleaseMode {
    /// Get the number that stands for the mode on the wire
    pub fn code(self) -> (code: u32)
        ensures
            code == (match self {
                ReleaseMode::Normal => 0u32,
                ReleaseMode::Deauthenticate => 0x0000_0002u32,
            }),
    {
        match self {
            ReleaseMode::Normal => 0,
            ReleaseMode::Deauthenticate => 0x0000_0002,
        }
    }
}

/// DRCP configuration options
#[derive(Debug, Clone)]
pub struct DrcpOptions {
    /// Connection class for session affinity
    pub connection_class: Option<String>,
    /// Session purity requirement
    pub purity: SessionPurity,
    /// Whether DRCP is enabled
    pub enabled: bool,
}

impl Default for DrcpOptions {
    /// DRCP is not enabled unless asked for
    fn default() -> (options: Self)
        ensures
            options == (DrcpOptions {
                connection_class: None,
                purity: SessionPurity::Default,
                enabled: false,
            }),
    {
        DrcpOptions { connection_class: None, purity: SessionPurity::Default, enabled: false }
    }
}

impl DrcpOptions {
    /// Create new DRCP options
    pub fn new() -> (options: Self)
        ensures
            options == (DrcpOptions {
                connection_class: None,
                purity: SessionPurity::Default,
                enabled: true,
            }),
    {
        DrcpOptions { connection_class: None, purity: SessionPurity::Default, enabled: true }
    }

    /// Set the connection class for session affinity
    ///
    /// Sessions with the same connection class may be reused, allowing
    /// for caching of session state (PL/SQL package variables, etc.)
    pub fn with_connection_class(self, class: &str) -> (options: Self)
        ensures
            opt_text(options.connection_class) == Some(class@),
            options.purity == self.purity,
            options.enabled == self.enabled,
    {
        DrcpOptions { connection_class: Some(class.to_string()), ..self }
    }

    /// Set the session purity
    pub fn with_purity(self, purity: SessionPurity) -> (options: Self)
        ensures
            options == (DrcpOptions { purity, ..self }),
    {
        DrcpOptions { purity, ..self }
    }

    /// Disable DRCP
    pub fn disabled(self) -> (options: Self)
        ensures
            options == (DrcpOptions { enabled: false, ..self }),
    {
        DrcpOptions { enabled: false, ..self }
    }

    /// Check if DRCP is enabled
    pub fn is_enabled(&self) -> (enabled: bool)
        ensures
            enabled == self.enabled,
    {
        self.enabled
    }
}

/// DRCP session state
#[derive(Debug, Clone)]
pub struct DrcpSession {
    /// Whether a DRCP session is held
    pub is_held: bool,
    /// Session tag (for session affinity)
    pub tag: Option<String>,
    /// Whether the session state has changed
    pub state_changed: bool,
}

impl Default for DrcpSession {
    fn default() -> (session: Self)
        ensures
            session == (DrcpSession { is_held: false, tag: None, state_changed: false }),
    {
        DrcpSession { is_held: false, tag: None, state_changed: false }
    }
}

impl DrcpSession {
    /// Create a new DRCP session state
    pub fn new() -> (session: Self)
        ensures
            session == (DrcpSession { is_held: false, tag: None, state_changed: false }),
    {
        DrcpSession::default()
    }

    /// Mark that a DRCP session is held
    pub fn set_held(&mut self, held: bool)
        ensures
            *final(self) == (DrcpSession { is_held: held, ..*old(self) }),
    {
        self.is_held = held;
    }

    /// Set the session tag
    pub fn set_tag(&mut self, tag: Option<String>)
        ensures
            *final(self) == (DrcpSession { tag, ..*old(self) }),
    {
        self.tag = tag;
    }

    /// Check if session state has changed
    pub fn is_state_changed(&self) -> (changed: bool)
        ensures
            changed == self.state_changed,
    {
        self.state_changed
    }

    /// Mark session state as changed
    pub fn mark_state_changed(&mut self)
        ensures
            *final(self) == (DrcpSession { state_changed: true, ..*old(self) }),
    {
        self.state_changed = true;
    }

    /// Clear the state changed flag
    pub fn clear_state_changed(&mut self)
        ensures
            *final(self) == (DrcpSession { state_changed: false, ..*old(self) }),
    {
        self.state_changed = false;
    }
}

} // verus!
