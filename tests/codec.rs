use crabbar::events::{DecodeError, Event};
use crabbar::hex::parse_hex_id;

#[test]
fn workspace_activated_round_trips() {
    assert_eq!(
        Event::new("workspacev2>>1,web"),
        Ok(Event::WorkspaceV2 { id: 1, name: "web".to_string() })
    );
}

#[test]
fn active_layout_round_trips() {
    assert_eq!(
        Event::new("activelayout>>kb0,us"),
        Ok(Event::ActiveLayout { name: "kb0".to_string(), layout: "us".to_string() })
    );
}

#[test]
fn active_window_title_keeps_its_commas() {
    assert_eq!(
        Event::new("activewindow>>kitty,vim a.rs, b.rs"),
        Ok(Event::ActiveWindow { class: "kitty".to_string(), title: "vim a.rs, b.rs".to_string() })
    );
}

#[test]
fn workspace_ids_are_hexadecimal() {
    assert_eq!(
        Event::new("createworkspacev2>>1f,dev"),
        Ok(Event::CreateWorkspaceV2 { id: 31, name: "dev".to_string() })
    );
    assert_eq!(
        Event::new("destroyworkspacev2>>A,x"),
        Ok(Event::DestroyWorkspaceV2 { id: 10, name: "x".to_string() })
    );
    assert_eq!(
        Event::new("renameworkspace>>+ff,new,name"),
        Ok(Event::RenameWorkspace { id: 255, new_name: "new,name".to_string() })
    );
}

#[test]
fn empty_fields_are_kept() {
    assert_eq!(
        Event::new("activewindow>>,"),
        Ok(Event::ActiveWindow { class: String::new(), title: String::new() })
    );
}

#[test]
fn first_separator_splits_name_from_body() {
    assert_eq!(
        Event::new("activewindow>>a>>b,c"),
        Ok(Event::ActiveWindow { class: "a>>b".to_string(), title: "c".to_string() })
    );
}

#[test]
fn unknown_event_name_is_reported() {
    assert_eq!(Event::new("bogus>>1,2"), Err(DecodeError::UnknownEvent));
    assert_eq!(Event::new("fullscreen>>1"), Err(DecodeError::UnknownEvent));
    assert_eq!(Event::new(">>1,2"), Err(DecodeError::UnknownEvent));
}

#[test]
fn missing_separator_is_malformed() {
    assert_eq!(Event::new("workspacev2:1,web"), Err(DecodeError::Malformed));
    assert_eq!(Event::new(""), Err(DecodeError::Malformed));
    assert_eq!(Event::new("workspacev2>"), Err(DecodeError::Malformed));
}

#[test]
fn missing_field_is_malformed() {
    assert_eq!(Event::new("workspacev2>>1"), Err(DecodeError::Malformed));
    assert_eq!(Event::new("activelayout>>kb0"), Err(DecodeError::Malformed));
}

#[test]
fn bad_hex_id_is_malformed() {
    assert_eq!(Event::new("workspacev2>>zz,web"), Err(DecodeError::Malformed));
    assert_eq!(Event::new("workspacev2>>,web"), Err(DecodeError::Malformed));
    assert_eq!(Event::new("workspacev2>>+,web"), Err(DecodeError::Malformed));
    assert_eq!(Event::new("workspacev2>>-1,web"), Err(DecodeError::Malformed));
    assert_eq!(
        Event::new("workspacev2>>10000000000000000,web"),
        Err(DecodeError::Malformed)
    );
}

#[test]
fn hex_ids_parse_like_std() {
    for text in ["0", "1", "ff", "FF", "+7", "ffffffffffffffff", "10000000000000000", "", "+", "-1", "g", "1 "] {
        assert_eq!(parse_hex_id(text), usize::from_str_radix(text, 16).ok(), "{text}");
    }
}
