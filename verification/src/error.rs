//! The closed set of reasons for which a request is turned down.

use vstd::prelude::*;

verus! {

/// Why a request was turned down. No failure is fatal: the game stays as it was.
#[derive(Clone, Copy, Debug, PartialEq, Eq, Structural)]
pub enum GameError {
    InsufficientPermissions,
    InvalidGameState,
    FailedToCreateGame,
    GameNotFound,
    UsernameTooLong,
    QuestionNotFound,
    PlayerNotFound,
    MissingQuestions,
    NewPlayerCannotJoinAfterStart,
    AlreadyAnswered,
}

/// The sentence shown to a user for each error.
pub open spec fn message_text(error: GameError) -> Seq<char> {
    match error {
        GameError::GameNotFound => "Game could not be found."@,
        GameError::UsernameTooLong => "Usernames must be less than 20 characters long."@,
        GameError::InsufficientPermissions => "User has insufficient permissions to perform this action."@,
        GameError::InvalidGameState => "Game is not in a valid state."@,
        GameError::FailedToCreateGame => "Failed to create the game."@,
        GameError::QuestionNotFound => "Could not find the question to pick."@,
        GameError::PlayerNotFound => "Player performing the action could not be found in the Game."@,
        GameError::MissingQuestions => "Game must contain at least 1 round, where all rounds contain at least 1 category, with at least 1 question"@,
        GameError::NewPlayerCannotJoinAfterStart => "New Contestants cannot join a game after it has started."@,
        GameError::AlreadyAnswered => "Another player has already buzzed in."@,
    }
}

impl GameError {
    /// The sentence shown to a user for this error.
    pub fn get_message(&self) -> (message: &'static str)
        ensures
            message@ == message_text(*self),
    {
        match self {
            GameError::GameNotFound => "Game could not be found.",
            GameError::UsernameTooLong => "Usernames must be less than 20 characters long.",
            GameError::InsufficientPermissions => {
                "User has insufficient permissions to perform this action."
            },
            GameError::InvalidGameState => "Game is not in a valid state.",
            GameError::FailedToCreateGame => "Failed to create the game.",
            GameError::QuestionNotFound => "Could not find the question to pick.",
            GameError::PlayerNotFound => {
                "Player performing the action could not be found in the Game."
            },
            GameError::MissingQuestions => {
                "Game must contain at least 1 round, where all rounds contain at least 1 category, with at least 1 question"
            },
            GameError::NewPlayerCannotJoinAfterStart => {
                "New Contestants cannot join a game after it has started."
            },
            GameError::AlreadyAnswered => "Another player has already buzzed in.",
        }
    }
}

} // verus!
