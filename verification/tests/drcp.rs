use oracle_rs::{DrcpOptions, DrcpSession, ReleaseMode, SessionPurity};

#[test]
fn test_drcp_options_default() {
    let opts = DrcpOptions::new();
    assert!(opts.enabled);
    assert!(opts.connection_class.is_none());
    assert_eq!(opts.purity, SessionPurity::Default);
}

#[test]
fn test_drcp_options_builder() {
    let opts = DrcpOptions::new()
        .with_connection_class("MyApp")
        .with_purity(SessionPurity::New);

    assert!(opts.is_enabled());
    assert_eq!(opts.connection_class, Some("MyApp".to_string()));
    assert_eq!(opts.purity, SessionPurity::New);
}

#[test]
fn test_drcp_options_disabled() {
    let opts = DrcpOptions::new().disabled();
    assert!(!opts.is_enabled());
}

#[test]
fn test_drcp_session_state() {
    let mut session = DrcpSession::new();
    assert!(!session.is_held);

    session.set_held(true);
    assert!(session.is_held);

    session.set_tag(Some("tag1".to_string()));
    assert_eq!(session.tag, Some("tag1".to_string()));
}

#[test]
fn test_drcp_session_state_changed() {
    let mut session = DrcpSession::new();
    assert!(!session.is_state_changed());

    session.mark_state_changed();
    assert!(session.is_state_changed());

    session.clear_state_changed();
    assert!(!session.is_state_changed());
}

#[test]
fn test_session_purity_values() {
    assert_eq!(SessionPurity::Default, SessionPurity::default());
}

#[test]
fn test_release_mode_values() {
    assert_eq!(ReleaseMode::Normal.code(), 0);
    assert_eq!(ReleaseMode::Deauthenticate.code(), 0x00000002);
}

#[test]
fn default_options_are_not_enabled() {
    let opts = DrcpOptions::default();
    assert!(!opts.is_enabled());
    assert!(opts.connection_class.is_none());
    assert_eq!(ReleaseMode::default(), ReleaseMode::Normal);
}

#[test]
fn setters_keep_the_rest() {
    let opts = DrcpOptions::new()
        .with_purity(SessionPurity::Self_)
        .with_connection_class("A")
        .with_connection_class("B")
        .disabled();
    assert_eq!(opts.purity, SessionPurity::Self_);
    assert_eq!(opts.connection_class, Some("B".to_string()));

    let mut session = DrcpSession::default();
    session.mark_state_changed();
    session.set_tag(Some("t".to_string()));
    session.set_held(true);
    session.set_held(false);
    assert!(session.is_state_changed());
    assert_eq!(session.tag, Some("t".to_string()));
    session.set_tag(None);
    assert_eq!(session.tag, None);
}
