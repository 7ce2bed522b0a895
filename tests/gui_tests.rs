use ghosties::gui::{animate_once, handle_menu_input, AnimateOnce, GameState, MenuState};

#[test]
fn escape_toggles_settings_in_game() {
    assert_eq!(handle_menu_input(true, GameState::InGame, MenuState::Main), Some(MenuState::Settings));
    assert_eq!(handle_menu_input(true, GameState::InGame, MenuState::Settings), Some(MenuState::Main));
    assert_eq!(handle_menu_input(true, GameState::InGame, MenuState::HostLobby), None);
}

#[test]
fn escape_ignored_outside_game() {
    assert_eq!(handle_menu_input(true, GameState::MainMenu, MenuState::Main), None);
    assert_eq!(handle_menu_input(true, GameState::Matchmaking, MenuState::Settings), None);
    assert_eq!(handle_menu_input(false, GameState::InGame, MenuState::Main), None);
}

#[test]
fn effect_plays_once() {
    let frames = AnimateOnce(3);
    assert_eq!(animate_once(0, frames), Some(1));
    assert_eq!(animate_once(1, frames), Some(2));
    assert_eq!(animate_once(2, frames), None);
    assert_eq!(animate_once(0, AnimateOnce(1)), None);
}
