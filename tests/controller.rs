use screen_share::controller::{hotkey_for_key, session_config, ScreenState};
use screen_share::{ScreenConfig, ScreenHotkey, ScreenMode};

fn state_in(mode: ScreenMode) -> ScreenState {
    let config = ScreenConfig { mode, ..ScreenConfig::default() };
    ScreenState::new(&config)
}

#[test]
fn toggle_shares_and_stops_sharing() {
    let mut s = state_in(ScreenMode::InputOnly);
    s.handle_hotkey(ScreenHotkey::Toggle, &vec![]);
    assert_eq!(s.current_mode(), ScreenMode::ShareScreen);
    assert_eq!(s.displayed_client(), None);
    s.handle_hotkey(ScreenHotkey::Toggle, &vec![]);
    assert_eq!(s.current_mode(), ScreenMode::InputOnly);
    assert_eq!(s.displayed_client(), None);
}

#[test]
fn toggle_from_remote_display_returns_to_input_only() {
    let mut s = state_in(ScreenMode::InputOnly);
    s.handle_hotkey(ScreenHotkey::Remote(4), &vec![]);
    s.handle_hotkey(ScreenHotkey::Toggle, &vec![]);
    assert_eq!(s.current_mode(), ScreenMode::InputOnly);
    assert_eq!(s.displayed_client(), None);
}

#[test]
fn local_hotkey_leaves_remote_display() {
    let mut s = state_in(ScreenMode::InputOnly);
    s.handle_hotkey(ScreenHotkey::Remote(5), &vec![]);
    assert_eq!(s.current_mode(), ScreenMode::DisplayRemote);
    assert_eq!(s.displayed_client(), Some(5));
    s.handle_hotkey(ScreenHotkey::Local, &vec![]);
    assert_eq!(s.current_mode(), ScreenMode::InputOnly);
    assert_eq!(s.displayed_client(), None);
}

#[test]
fn cycle_moves_to_next_peer_and_wraps() {
    let active = vec![9u64, 3, 7];
    let mut s = state_in(ScreenMode::InputOnly);
    s.handle_hotkey(ScreenHotkey::Remote(7), &active);
    s.handle_hotkey(ScreenHotkey::Cycle, &active);
    assert_eq!(s.current_mode(), ScreenMode::DisplayRemote);
    assert_eq!(s.displayed_client(), Some(9));
    s.handle_hotkey(ScreenHotkey::Cycle, &active);
    assert_eq!(s.current_mode(), ScreenMode::DisplayRemote);
    assert_eq!(s.displayed_client(), Some(3));
}

#[test]
fn cycle_from_no_peer_starts_at_the_first() {
    let mut s = state_in(ScreenMode::ShareScreen);
    s.handle_hotkey(ScreenHotkey::Cycle, &vec![8, 2, 5]);
    assert_eq!(s.current_mode(), ScreenMode::DisplayRemote);
    assert_eq!(s.displayed_client(), Some(2));
}

#[test]
fn cycle_from_unknown_peer_starts_at_the_first() {
    let mut s = state_in(ScreenMode::InputOnly);
    s.handle_hotkey(ScreenHotkey::Remote(4), &vec![]);
    s.handle_hotkey(ScreenHotkey::Cycle, &vec![8, 2, 5]);
    assert_eq!(s.displayed_client(), Some(2));
}

#[test]
fn cycle_with_no_active_peer_returns_to_input_only() {
    let mut s = state_in(ScreenMode::InputOnly);
    s.handle_hotkey(ScreenHotkey::Remote(3), &vec![]);
    s.handle_hotkey(ScreenHotkey::Cycle, &vec![]);
    assert_eq!(s.current_mode(), ScreenMode::InputOnly);
    assert_eq!(s.displayed_client(), None);
}

#[test]
fn disconnect_of_displayed_peer_clears_it() {
    let mut s = state_in(ScreenMode::InputOnly);
    s.handle_hotkey(ScreenHotkey::Remote(3), &vec![]);
    s.peer_disconnected(4);
    assert_eq!(s.displayed_client(), Some(3));
    s.peer_disconnected(3);
    assert_eq!(s.current_mode(), ScreenMode::InputOnly);
    assert_eq!(s.displayed_client(), None);
}

#[test]
fn configured_remote_display_starts_as_input_only() {
    let s = state_in(ScreenMode::DisplayRemote);
    assert_eq!(s.current_mode(), ScreenMode::InputOnly);
    assert_eq!(s.displayed_client(), None);
    assert_eq!(state_in(ScreenMode::ShareScreen).current_mode(), ScreenMode::ShareScreen);
}

#[test]
fn ctrl_shift_arrows_are_the_hotkeys() {
    assert_eq!(hotkey_for_key(true, true, 103), Some(ScreenHotkey::Cycle));
    assert_eq!(hotkey_for_key(true, true, 57416), Some(ScreenHotkey::Cycle));
    assert_eq!(hotkey_for_key(true, true, 108), Some(ScreenHotkey::Local));
    assert_eq!(hotkey_for_key(true, true, 57424), Some(ScreenHotkey::Local));
    assert_eq!(hotkey_for_key(true, false, 103), None);
    assert_eq!(hotkey_for_key(false, true, 108), None);
    assert_eq!(hotkey_for_key(true, true, 30), None);
}

#[test]
fn session_config_follows_the_settings() {
    let c = session_config(true, 60, 90);
    assert_eq!(c.mode, ScreenMode::ShareScreen);
    assert_eq!(c.fps, 60);
    assert_eq!(c.quality, 90);
    assert!(c.hardware_accel);
    assert_eq!(c.max_bitrate, 50);
    assert_eq!(session_config(false, 30, 80).mode, ScreenMode::InputOnly);
}

#[test]
fn defaults() {
    let c = ScreenConfig::default();
    assert_eq!(c.mode, ScreenMode::InputOnly);
    assert_eq!(c.fps, 30);
    assert_eq!(c.quality, 80);
    assert!(c.hardware_accel);
    assert_eq!(c.max_bitrate, 50);
    assert_eq!(ScreenMode::default(), ScreenMode::InputOnly);
    assert_eq!(screen_share::FrameType::default(), screen_share::FrameType::Inter);
}
