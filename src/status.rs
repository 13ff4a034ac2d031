//! The game's phases and how the engine's results move a game between them.
use vstd::prelude::*;
use crate::tetromino::CanSpawnMoreTetromino;

verus! {

/// The phase a game is in.
#[derive(Clone, Copy, Debug, PartialEq, Eq, Structural, Hash)]
pub enum GameStatus {
    /// A piece is falling under the player's control.
    Running,
    /// Filled rows are being cleared, one cell per tick.
    RemovingFilledRows,
    /// A new piece could not enter the grid; the game has ended.
    GameOver,
    /// Play is suspended.
    Pause,
}

/// What happened in the engine that may change the phase.
#[derive(Clone, Copy, Debug, PartialEq, Eq, Structural)]
pub enum GameEvent {
    /// The piece in play settled; the next piece was brought into play with
    /// the answer `spawn`, and `filled_rows` rows of the grid are filled.
    PieceLocked { spawn: CanSpawnMoreTetromino, filled_rows: u8 },
    /// The line-clear animation ran out of cells and the filled rows were collapsed.
    RowsCollapsed,
}

/// The phase after `event` in phase `status`. A settled piece ends the game
/// when the next piece does not fit, starts clearing when rows are filled,
/// and otherwise play goes on; collapsing the rows resumes play. Every other
/// pair leaves the phase as it is, so a finished game stays finished.
pub open spec fn status_after(status: GameStatus, event: GameEvent) -> GameStatus {
    match status {
        GameStatus::Running => match event {
            GameEvent::PieceLocked { spawn, filled_rows } => {
                if spawn == CanSpawnMoreTetromino::No {
                    GameStatus::GameOver
                } else if filled_rows > 0 {
                    GameStatus::RemovingFilledRows
                } else {
                    GameStatus::Running
                }
            },
            GameEvent::RowsCollapsed => GameStatus::Running,
        },
        GameStatus::RemovingFilledRows => match event {
            GameEvent::RowsCollapsed => GameStatus::Running,
            _ => GameStatus::RemovingFilledRows,
        },
        _ => status,
    }
}

impl GameStatus {
    /// The phase that follows `event`.
    pub fn after(&self, event: GameEvent) -> (r: GameStatus)
        ensures
            r == status_after(*self, event),
    {
        match self {
            GameStatus::Running => match event {
                GameEvent::PieceLocked { spawn, filled_rows } => match spawn {
                    CanSpawnMoreTetromino::No => GameStatus::GameOver,
                    CanSpawnMoreTetromino::Yes => {
                        if filled_rows > 0 {
                            GameStatus::RemovingFilledRows
                        } else {
                            GameStatus::Running
                        }
                    },
                },
                GameEvent::RowsCollapsed => GameStatus::Running,
            },
            GameStatus::RemovingFilledRows => match event {
                GameEvent::RowsCollapsed => GameStatus::Running,
                _ => GameStatus::RemovingFilledRows,
            },
            _ => *self,
        }
    }
}

impl Default for GameStatus {
    /// A game starts running.
    fn default() -> (r: GameStatus)
        ensures
            r == GameStatus::Running,
    {
        GameStatus::Running
    }
}

} // verus!
