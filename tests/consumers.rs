use crabbar::audio::{ConnectionState, PulseaudioEvent, SinkInfo, SinkOperation};
use crabbar::battery::{battery_info, is_battery, parse_decimal_i32, trim_end_newlines, BatteryInfo};
use crabbar::ctl::{main_keyboard, Keyboard};
use crabbar::events::Event;
use crabbar::display::{
    bar_update, BarUpdate, average_volume, sound_icon, track_active_sink, window_name, Placement, SoundIcon, Workspaces,
};

fn sink(index: u32, mute: bool) -> SinkInfo {
    SinkInfo { name: None, index, volume: vec![1000], base_volume: 65536, mute }
}

#[test]
fn long_titles_are_cut_to_fifty_nine_characters() {
    let title: String = "é".repeat(61);
    let expected = format!("{}...", "é".repeat(59));
    assert_eq!(window_name(&title), expected);
    let exact = "x".repeat(60);
    assert_eq!(window_name(&exact), exact);
    assert_eq!(window_name(""), "");
}

#[test]
fn workspaces_stay_ordered_by_id() {
    let mut ws = Workspaces::new();
    assert_eq!(ws.add(3, "c".to_string()), Placement::Inserted(0));
    assert_eq!(ws.add(1, "a".to_string()), Placement::Inserted(0));
    assert_eq!(ws.add(5, "e".to_string()), Placement::Inserted(2));
    assert_eq!(ws.add(4, "d".to_string()), Placement::Inserted(2));
    assert_eq!(ws.add(3, "C".to_string()), Placement::Renamed(1));
    assert_eq!(ws.len(), 4);
    assert_eq!(ws.position(4), Some(2));
    assert_eq!(ws.position(2), None);
}

#[test]
fn removing_the_active_workspace_clears_it() {
    let mut ws = Workspaces::new();
    ws.add(1, "a".to_string());
    ws.add(2, "b".to_string());
    assert_eq!(ws.activate(9), None);
    assert_eq!(ws.active(), None);
    assert_eq!(ws.activate(2), Some(1));
    assert_eq!(ws.active(), Some(2));
    assert_eq!(ws.remove(1), Some(0));
    assert_eq!(ws.active(), Some(2));
    assert_eq!(ws.remove(1), None);
    assert_eq!(ws.remove(2), Some(0));
    assert_eq!(ws.active(), None);
    assert_eq!(ws.len(), 0);
}

#[test]
fn sound_follows_the_default_sink() {
    let s = track_active_sink(None, PulseaudioEvent::DefaultSinkChanged(sink(2, false)));
    assert_eq!(s, Some(sink(2, false)));
    let s = track_active_sink(s, PulseaudioEvent::SinkUpdate { op: SinkOperation::Changed, sink_info: sink(7, true) });
    assert_eq!(s, Some(sink(2, false)));
    let s = track_active_sink(s, PulseaudioEvent::SinkUpdate { op: SinkOperation::Changed, sink_info: sink(2, true) });
    assert_eq!(s, Some(sink(2, true)));
    let s = track_active_sink(s, PulseaudioEvent::StateChange(ConnectionState::Ready));
    assert_eq!(s, Some(sink(2, true)));
    let s = track_active_sink(s, PulseaudioEvent::StateChange(ConnectionState::Failed));
    assert_eq!(s, None);
    let s = track_active_sink(s, PulseaudioEvent::SinkUpdate { op: SinkOperation::New, sink_info: sink(7, false) });
    assert_eq!(s, Some(sink(7, false)));
}

#[test]
fn battery_files_are_read() {
    assert!(is_battery("Battery\n"));
    assert!(!is_battery("Mains\n"));
    assert!(!is_battery("Battery"));
    assert_eq!(
        battery_info("85\n", "Charging\n\n"),
        Some(BatteryInfo { capacity: 85, status: "Charging".to_string() })
    );
    assert_eq!(battery_info("8x5\n", "Full\n"), None);
    assert_eq!(battery_info("\n", "Full\n"), None);
    assert_eq!(trim_end_newlines("a\nb\n\n"), "a\nb");
}

#[test]
fn decimal_capacity_parses_like_std() {
    for text in ["0", "100", "+7", "-5", "2147483647", "2147483648", "-2147483648", "-2147483649", "", "-", "+", "1a", " 1"] {
        assert_eq!(parse_decimal_i32(text), text.parse::<i32>().ok(), "{text}");
    }
}

fn keyboard(name: &str, main: bool) -> Keyboard {
    Keyboard {
        address: String::new(),
        name: name.to_string(),
        rules: String::new(),
        model: String::new(),
        layout: "us".to_string(),
        variant: String::new(),
        options: String::new(),
        active_keymap: "English (US)".to_string(),
        main,
    }
}

#[test]
fn first_main_keyboard_is_chosen() {
    let kbs = vec![keyboard("a", false), keyboard("b", true), keyboard("c", true)];
    assert_eq!(main_keyboard(kbs).map(|k| k.name), Some("b".to_string()));
    assert_eq!(main_keyboard(vec![keyboard("a", false)]), None);
}

fn named_sink(name: Option<&str>, volume: Vec<u32>, mute: bool) -> SinkInfo {
    SinkInfo { name: name.map(|n| n.to_string()), index: 0, volume, base_volume: 65536, mute }
}

#[test]
fn sound_icon_follows_volume_and_device() {
    assert_eq!(sound_icon(&named_sink(None, vec![16383], false)), SoundIcon::Low);
    assert_eq!(sound_icon(&named_sink(None, vec![16384], false)), SoundIcon::Medium);
    assert_eq!(sound_icon(&named_sink(None, vec![49151], false)), SoundIcon::Medium);
    assert_eq!(sound_icon(&named_sink(None, vec![49152], false)), SoundIcon::High);
    assert_eq!(sound_icon(&named_sink(None, vec![100000, 100000], false)), SoundIcon::High);
    assert_eq!(sound_icon(&named_sink(Some("alsa_output"), vec![65536], true)), SoundIcon::Muted);
    assert_eq!(sound_icon(&named_sink(Some("bluez_sink.x"), vec![0], false)), SoundIcon::Bluetooth);
    assert_eq!(sound_icon(&named_sink(Some("bluez_sink.x"), vec![0], true)), SoundIcon::BluetoothMuted);
    assert_eq!(sound_icon(&named_sink(Some("bluez"), vec![0], true)), SoundIcon::Muted);
    assert_eq!(sound_icon(&named_sink(None, vec![], false)), SoundIcon::Low);
}

#[test]
fn average_volume_rounds_down() {
    assert_eq!(average_volume(&vec![1, 2]), 1);
    assert_eq!(average_volume(&vec![u32::MAX, u32::MAX]), u32::MAX);
    assert_eq!(average_volume(&vec![]), 0);
    assert_eq!(average_volume(&vec![65536, 32768, 0]), 32768);
}

#[test]
fn events_reach_their_widgets() {
    assert_eq!(
        bar_update(Event::ActiveLayout { name: "kb0".to_string(), layout: "us".to_string() }),
        Some(BarUpdate::Layout { layout: "us".to_string() })
    );
    assert_eq!(
        bar_update(Event::WorkspaceV2 { id: 3, name: "3".to_string() }),
        Some(BarUpdate::ActivateWorkspace { id: 3 })
    );
    assert_eq!(
        bar_update(Event::CreateWorkspaceV2 { id: 4, name: "web".to_string() }),
        Some(BarUpdate::CreateWorkspace { id: 4, name: "web".to_string() })
    );
    assert_eq!(
        bar_update(Event::DestroyWorkspaceV2 { id: 4, name: "web".to_string() }),
        Some(BarUpdate::DestroyWorkspace { id: 4 })
    );
    assert_eq!(
        bar_update(Event::ActiveWindow { class: "kitty".to_string(), title: "t".to_string() }),
        Some(BarUpdate::ActiveWindow { class: "kitty".to_string(), title: "t".to_string() })
    );
    assert_eq!(bar_update(Event::Fullscreen { status: true }), None);
    assert_eq!(bar_update(Event::RenameWorkspace { id: 1, new_name: "x".to_string() }), None);
}
