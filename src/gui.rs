//! Menu and effect state that the presentation keeps outside the simulation.
use vstd::prelude::*;

verus! {

/// The top-level state of the program.
#[derive(Clone, Copy, Debug, PartialEq, Eq, Structural)]
pub enum GameState {
    AssetLoading,
    MainMenu,
    Matchmaking,
    InGame,
}

/// Which menu is shown.
#[derive(Clone, Copy, Debug, PartialEq, Eq, Structural)]
pub enum MenuState {
    Main,
    DirectConnect,
    HostLobby,
    JoinLobby,
    Settings,
}

pub open spec fn menu_input_spec(escape_pressed: bool, game: GameState, menu: MenuState) -> Option<MenuState> {
    if escape_pressed && game == GameState::InGame {
        match menu {
            MenuState::Main => Some(MenuState::Settings),
            MenuState::Settings => Some(MenuState::Main),
            _ => None,
        }
    } else {
        None
    }
}

/// The menu to switch to on this frame, if any: in game, Escape toggles between the
/// main view and the settings.
pub fn handle_menu_input(escape_pressed: bool, game: GameState, menu: MenuState) -> (r: Option<MenuState>)
    ensures
        r == menu_input_spec(escape_pressed, game, menu),
{
    if escape_pressed && game == GameState::InGame {
        match menu {
            MenuState::Main => Some(MenuState::Settings),
            MenuState::Settings => Some(MenuState::Main),
            _ => None,
        }
    } else {
        None
    }
}

/// An effect that plays its sprite frames once, then goes away.
#[derive(Clone, Copy, Debug, PartialEq, Eq, Structural)]
pub struct AnimateOnce(pub usize);

/// The sprite frame after `index` when the effect's timer fires, or `None` once the
/// last frame has been shown and the effect is removed.
pub fn animate_once(index: usize, frames: AnimateOnce) -> (r: Option<usize>)
    requires
        index < frames.0,
    ensures
        index + 1 == frames.0 ==> r.is_none(),
        index + 1 < frames.0 ==> r == Some((index + 1) as usize),
{
    if index == frames.0 - 1 {
        None
    } else {
        Some(index + 1)
    }
}

} // verus!
