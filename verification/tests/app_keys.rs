use arklog::app_keys::fault_scroll_down;
use arklog::{
    dispatch_key, AppCommand, InputMode, KeyAction, KeyCode, KeyEvent, KeyModifiers, LogTab,
    NavigationAction, OverlayMode,
};

fn key(code: KeyCode) -> KeyEvent {
    KeyEvent::new(code, KeyModifiers::none())
}

#[test]
fn commands_win_over_navigation_and_plain_keys() {
    let quit = KeyEvent::new(KeyCode::Char('q'), KeyModifiers::control());
    assert_eq!(
        dispatch_key(quit, OverlayMode::Nothing, InputMode::Filter, LogTab::HiLog),
        KeyAction::Command(AppCommand::Quit)
    );
    assert_eq!(
        dispatch_key(key(KeyCode::Left), OverlayMode::Nothing, InputMode::Normal, LogTab::HiLog),
        KeyAction::Navigate(NavigationAction::ScrollLeft)
    );
    assert_eq!(
        dispatch_key(key(KeyCode::Right), OverlayMode::Devices, InputMode::Normal, LogTab::HiLog),
        KeyAction::Navigate(NavigationAction::NextDevice)
    );
}

#[test]
fn keys_reach_the_open_editor_or_the_device_list() {
    assert_eq!(
        dispatch_key(key(KeyCode::Char('a')), OverlayMode::Nothing, InputMode::Find, LogTab::HiLog),
        KeyAction::Input
    );
    assert_eq!(
        dispatch_key(key(KeyCode::Esc), OverlayMode::Devices, InputMode::Normal, LogTab::HiLog),
        KeyAction::CloseOverlay
    );
    assert_eq!(
        dispatch_key(key(KeyCode::Up), OverlayMode::Devices, InputMode::Normal, LogTab::HiLog),
        KeyAction::Ignore
    );
}

#[test]
fn paging_depends_on_the_log_view() {
    assert_eq!(
        dispatch_key(key(KeyCode::PageDown), OverlayMode::Nothing, InputMode::Normal, LogTab::HiLog),
        KeyAction::MoveDown(10)
    );
    assert_eq!(
        dispatch_key(key(KeyCode::PageDown), OverlayMode::Nothing, InputMode::Normal, LogTab::FaultLog),
        KeyAction::FaultScrollDown(10)
    );
    assert_eq!(
        dispatch_key(key(KeyCode::Tab), OverlayMode::Nothing, InputMode::Normal, LogTab::FaultLog),
        KeyAction::NextTab
    );
    assert_eq!(fault_scroll_down(0, 10, 25, 20), 5);
    assert_eq!(fault_scroll_down(0, 10, 100, 20), 10);
    assert_eq!(fault_scroll_down(3, 10, 5, 20), 0);
}
