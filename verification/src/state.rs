//! Application-level state machines: which screen is shown and whether a
//! round is running. The host's scheduler gates its per-frame systems on
//! these states; the library only defines the states themselves.

use vstd::prelude::*;

verus! {

/// Top-level application state.
#[derive(Clone, Copy, Debug, Default, PartialEq, Eq, Structural, Hash)]
pub enum AppState {
    #[default]
    TitleMenu,
    InGame,
}

/// Which title-menu screen is visible.
#[derive(Clone, Copy, Debug, Default, PartialEq, Eq, Structural, Hash)]
pub enum TitleMenuState {
    Hidden,
    #[default]
    Home,
    NewGame,
    Settings,
}

/// Whether gameplay systems run.
#[derive(Clone, Copy, Debug, Default, PartialEq, Eq, Structural, Hash)]
pub enum InGameState {
    #[default]
    Idle,
    Playing,
}

/// Title-menu state entered when the application state changes: the menu
/// shows its home screen inside the title menu and hides everywhere else.
pub fn title_state_for(app: AppState) -> (r: TitleMenuState)
    ensures
        r == match app {
            AppState::TitleMenu => TitleMenuState::Home,
            AppState::InGame => TitleMenuState::Hidden,
        },
{
    match app {
        AppState::TitleMenu => TitleMenuState::Home,
        AppState::InGame => TitleMenuState::Hidden,
    }
}

/// In-game state entered when the application state changes: gameplay runs
/// exactly while the application is in game.
pub fn in_game_state_for(app: AppState) -> (r: InGameState)
    ensures
        r == match app {
            AppState::TitleMenu => InGameState::Idle,
            AppState::InGame => InGameState::Playing,
        },
{
    match app {
        AppState::TitleMenu => InGameState::Idle,
        AppState::InGame => InGameState::Playing,
    }
}

} // verus!
