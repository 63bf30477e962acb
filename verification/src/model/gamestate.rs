use vstd::prelude::*;
use vstd::string::*;
use crate::text::{decimal, decimal_digits};

verus! {

/// The phase of a game. While it is underway the state names the player whose
/// turn it is, by roster index and name, and counts the shots fired and the
/// hits made in that turn.
#[derive(Debug, PartialEq)]
pub enum GameState {
    Lobby,
    Underway((usize, String), u8, u8),
    Over(String),
}

/// A phase as plain values.
pub enum GameStateView {
    Lobby,
    Underway { index: usize, name: Seq<char>, fired_shots: u8, hits: u8 },
    Over { winner: Seq<char> },
}

impl GameStateView {
    /// How far the game has come: a game only ever moves to a later phase.
    pub open spec fn rank(self) -> nat {
        match self {
            GameStateView::Lobby => 0,
            GameStateView::Underway { .. } => 1,
            GameStateView::Over { .. } => 2,
        }
    }

    /// The word that announces the phase.
    pub open spec fn label(self) -> Seq<char> {
        match self {
            GameStateView::Lobby => "lobby"@,
            GameStateView::Underway { .. } => "underway"@,
            GameStateView::Over { .. } => "over"@,
        }
    }

    /// The sentence that describes the phase to a reader.
    pub open spec fn rendering(self) -> Seq<char> {
        match self {
            GameStateView::Lobby => "Lobby"@,
            GameStateView::Underway { name, fired_shots, .. } => name + "'s turn. "@
                + decimal_digits((5 - fired_shots) as nat) + " shots to go."@,
            GameStateView::Over { winner } => "Game over. "@ + winner + " won!"@,
        }
    }
}

impl View for GameState {
    type V = GameStateView;

    open spec fn view(&self) -> GameStateView {
        match self {
            GameState::Lobby => GameStateView::Lobby,
            GameState::Underway((index, name), fired_shots, hits) => GameStateView::Underway {
                index: *index,
                name: name@,
                fired_shots: *fired_shots,
                hits: *hits,
            },
            GameState::Over(winner) => GameStateView::Over { winner: winner@ },
        }
    }
}

impl Clone for GameState {
    fn clone(&self) -> (s: GameState)
        ensures
            s@ == self@,
    {
        match self {
            GameState::Lobby => GameState::Lobby,
            GameState::Underway((index, name), fired_shots, hits) => GameState::Underway(
                (*index, name.clone()),
                *fired_shots,
                *hits,
            ),
            GameState::Over(winner) => GameState::Over(winner.clone()),
        }
    }
}

impl GameState {
    /// Writes the word that announces the phase: `lobby`, `underway` or `over`.
    pub fn label(&self) -> (s: String)
        ensures
            s@ == self@.label(),
    {
        match self {
            GameState::Lobby => String::from_str("lobby"),
            GameState::Underway(_, _, _) => String::from_str("underway"),
            GameState::Over(_) => String::from_str("over"),
        }
    }

    /// Writes the sentence that describes the phase, with the shots that are
    /// left of the five of a turn.
    pub fn render(&self) -> (s: String)
        requires
            self@ matches GameStateView::Underway { fired_shots, .. } ==> fired_shots <= 5,
        ensures
            s@ == self@.rendering(),
    {
        match self {
            GameState::Lobby => String::from_str("Lobby"),
            GameState::Underway((_, player), shots, _) => {
                let mut s = player.clone();
                s.append("'s turn. ");
                s.append(decimal((5 - *shots) as u64).as_str());
                s.append(" shots to go.");
                s
            },
            GameState::Over(winner) => {
                let mut s = String::from_str("Game over. ");
                s.append(winner.as_str());
                s.append(" won!");
                s
            },
        }
    }
}

} // verus!
