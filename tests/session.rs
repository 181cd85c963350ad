use crabbar::events::{DecodeError, Event};
use crabbar::listener::{read_outcome, ConfigError, LineOutcome, SessionConfig};

#[test]
fn both_identifiers_are_required() {
    assert_eq!(SessionConfig::resolve(None, Some("sig".to_string())), Err(ConfigError::MissingRuntimeDir));
    assert_eq!(SessionConfig::resolve(Some("/run/user/1".to_string()), None), Err(ConfigError::MissingSignature));
    assert_eq!(SessionConfig::resolve(None, None), Err(ConfigError::MissingRuntimeDir));
}

#[test]
fn socket_paths_are_built_from_the_session() {
    let cfg = SessionConfig::resolve(Some("/run/user/1/hypr".to_string()), Some("abc".to_string())).unwrap();
    assert_eq!(cfg.event_socket_path(), "/run/user/1/hypr/abc/.socket2.sock");
    assert_eq!(cfg.request_socket_path(), "/run/user/1/hypr/abc/.socket.sock");
    let plain = SessionConfig::resolve(Some("/tmp/wm".to_string()), Some("s".to_string())).unwrap();
    assert_eq!(plain.event_socket_path(), "/tmp/wm/s/.socket2.sock");
}

#[test]
fn read_outcomes() {
    assert_eq!(read_outcome(0, ""), LineOutcome::Closed);
    assert_eq!(
        read_outcome(19, "workspacev2>>2,dev\n"),
        LineOutcome::Event(Event::WorkspaceV2 { id: 2, name: "dev".to_string() })
    );
    assert_eq!(
        read_outcome(17, "activewindow>>a,b"),
        LineOutcome::Event(Event::ActiveWindow { class: "a".to_string(), title: "b".to_string() })
    );
    assert_eq!(read_outcome(11, "bogus>>1,2\n"), LineOutcome::Skipped(DecodeError::UnknownEvent));
    assert_eq!(read_outcome(1, "\n"), LineOutcome::Skipped(DecodeError::Malformed));
}
