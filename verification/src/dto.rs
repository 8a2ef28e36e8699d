//! What travels between a game and the outside: requests that come in, messages that go out.

use vstd::prelude::*;
use crate::error::{message_text, GameError};
use crate::models::{
    clone_players, clone_rounds, Category, CategoryView, Game, GameLog, GameLogView, GameState,
    GameStateView, GameView, Player, PlayerView, Question, QuestionView,
};

verus! {

/// A summary of a game, as the rules see it.
pub struct OverviewView {
    pub players: Seq<PlayerView>,
    pub last_winner: Seq<char>,
    pub current_round: int,
    pub state: GameStateView,
    pub last_log_index: int,
    pub last_log: Option<GameLogView>,
}

/// What every observer is told after a change: the roster, the last winner, the round, the
/// phase and the newest line of the history. The board itself is left out.
#[derive(Debug, PartialEq)]
pub struct GameOverview {
    pub players: Vec<Player>,
    pub last_winner: String,
    pub current_round: usize,
    pub state: GameState,
    pub last_log_index: usize,
    pub last_log: Option<GameLog>,
}

impl View for GameOverview {
    type V = OverviewView;

    open spec fn view(&self) -> OverviewView {
        OverviewView {
            players: self.players.deep_view(),
            last_winner: self.last_winner@,
            current_round: self.current_round as int,
            state: self.state@,
            last_log_index: self.last_log_index as int,
            last_log: self.last_log.deep_view(),
        }
    }
}

impl DeepView for GameOverview {
    type V = OverviewView;

    open spec fn deep_view(&self) -> OverviewView {
        self@
    }
}

impl Clone for GameOverview {
    fn clone(&self) -> (copy: GameOverview)
        ensures
            copy@ == self@,
    {
        let last_log = match &self.last_log {
            Some(entry) => Some(entry.clone()),
            None => None,
        };
        GameOverview {
            players: clone_players(&self.players),
            last_winner: self.last_winner.clone(),
            current_round: self.current_round,
            state: self.state.clone(),
            last_log_index: self.last_log_index,
            last_log,
        }
    }
}

/// The summary of a game: its newest history line is the last one, at index `len - 1`
/// (index 0 and no line where the history is empty).
pub open spec fn overview_of(game: GameView) -> OverviewView {
    OverviewView {
        players: game.players,
        last_winner: game.last_winner,
        current_round: game.current_round,
        state: game.state,
        last_log_index: if game.log.len() == 0 {
            0
        } else {
            game.log.len() - 1
        },
        last_log: if game.log.len() == 0 {
            None
        } else {
            Some(game.log.last())
        },
    }
}

impl GameOverview {
    /// Summarises a game.
    pub fn of(game: &Game) -> (overview: GameOverview)
        ensures
            overview@ == overview_of(game@),
    {
        let count = game.log.len();
        let last_log = if count == 0 {
            None
        } else {
            Some(game.log[count - 1].clone())
        };
        GameOverview {
            players: clone_players(&game.players),
            last_winner: game.last_winner.clone(),
            current_round: game.current_round,
            state: game.state.clone(),
            last_log_index: if count == 0 {
                0
            } else {
                count - 1
            },
            last_log,
        }
    }
}

/// A message to the observers of a game, as the rules see it.
pub enum MessageView {
    JoinGame { game: OverviewView },
    GameUpdate { game: OverviewView },
    QuestionUpdate { question: QuestionView },
    ReportError { error: GameError, message: Seq<char>, username: Seq<char> },
    EndSession { username: Seq<char> },
}

/// A message to the observers of a game.
#[derive(Debug, PartialEq)]
pub enum GameMessage {
    /// The first thing a new observer is sent.
    JoinGame { game: GameOverview },
    /// Sent to everyone after each change.
    GameUpdate { game: GameOverview },
    /// Sent to everyone when a question has been answered or passed.
    QuestionUpdate { question: Question },
    /// Meant for `username` alone: their request was turned down.
    ReportError { error: GameError, message: &'static str, username: String },
    /// Meant for `username` alone: their connection is to be closed.
    EndSession { username: String },
}

impl View for GameMessage {
    type V = MessageView;

    open spec fn view(&self) -> MessageView {
        match self {
            GameMessage::JoinGame { game } => MessageView::JoinGame { game: game@ },
            GameMessage::GameUpdate { game } => MessageView::GameUpdate { game: game@ },
            GameMessage::QuestionUpdate { question } => MessageView::QuestionUpdate {
                question: question@,
            },
            GameMessage::ReportError { error, message, username } => MessageView::ReportError {
                error: *error,
                message: message@,
                username: username@,
            },
            GameMessage::EndSession { username } => MessageView::EndSession {
                username: username@,
            },
        }
    }
}

impl DeepView for GameMessage {
    type V = MessageView;

    open spec fn deep_view(&self) -> MessageView {
        self@
    }
}

impl Clone for GameMessage {
    fn clone(&self) -> (copy: GameMessage)
        ensures
            copy@ == self@,
    {
        match self {
            GameMessage::JoinGame { game } => GameMessage::JoinGame { game: game.clone() },
            GameMessage::GameUpdate { game } => GameMessage::GameUpdate { game: game.clone() },
            GameMessage::QuestionUpdate { question } => GameMessage::QuestionUpdate {
                question: question.clone(),
            },
            GameMessage::ReportError { error, message, username } => GameMessage::ReportError {
                error: *error,
                message: *message,
                username: username.clone(),
            },
            GameMessage::EndSession { username } => GameMessage::EndSession {
                username: username.clone(),
            },
        }
    }
}

/// The message that tells `username` why their request was turned down.
pub open spec fn error_report(error: GameError, username: Seq<char>) -> MessageView {
    MessageView::ReportError { error, message: message_text(error), username }
}

/// Whether an observer connected as `username` is to be shown `message`: an error report
/// and an end of session concern the one user they name, everything else concerns everyone.
pub open spec fn concerns(message: MessageView, username: Seq<char>) -> bool {
    match message {
        MessageView::ReportError { username: target, .. } => target == username,
        MessageView::EndSession { username: target } => target == username,
        _ => true,
    }
}

impl GameMessage {
    /// The message that tells `username` why their request was turned down.
    pub fn report(error: GameError, username: String) -> (message: GameMessage)
        ensures
            message@ == error_report(error, username@),
    {
        GameMessage::ReportError { error, message: error.get_message(), username }
    }

    /// Whether an observer connected as `username` is to be shown this message.
    pub fn is_for(&self, username: &String) -> (shown: bool)
        ensures
            shown == concerns(self@, username@),
    {
        match self {
            GameMessage::ReportError { username: target, .. } => *target == *username,
            GameMessage::EndSession { username: target } => *target == *username,
            _ => true,
        }
    }
}

/// A request from a participant, as the rules see it.
pub enum RequestView {
    StartGame,
    LeaveGame,
    PickQuestion { question_id: Seq<char> },
    AllowAnswering,
    AnswerQuestion,
    ConfirmAnswer { is_correct: bool },
    EndQuestion,
}

/// A request from a participant of a running game.
#[derive(Debug, PartialEq)]
pub enum UpdateGameRequest {
    StartGame,
    LeaveGame,
    PickQuestion { question_id: String },
    AllowAnswering,
    AnswerQuestion,
    ConfirmAnswer { is_correct: bool },
    EndQuestion,
}

impl View for UpdateGameRequest {
    type V = RequestView;

    open spec fn view(&self) -> RequestView {
        match self {
            UpdateGameRequest::StartGame => RequestView::StartGame,
            UpdateGameRequest::LeaveGame => RequestView::LeaveGame,
            UpdateGameRequest::PickQuestion { question_id } => RequestView::PickQuestion {
                question_id: question_id@,
            },
            UpdateGameRequest::AllowAnswering => RequestView::AllowAnswering,
            UpdateGameRequest::AnswerQuestion => RequestView::AnswerQuestion,
            UpdateGameRequest::ConfirmAnswer { is_correct } => RequestView::ConfirmAnswer {
                is_correct: *is_correct,
            },
            UpdateGameRequest::EndQuestion => RequestView::EndQuestion,
        }
    }
}

impl Clone for UpdateGameRequest {
    fn clone(&self) -> (copy: UpdateGameRequest)
        ensures
            copy@ == self@,
    {
        match self {
            UpdateGameRequest::StartGame => UpdateGameRequest::StartGame,
            UpdateGameRequest::LeaveGame => UpdateGameRequest::LeaveGame,
            UpdateGameRequest::PickQuestion { question_id } => UpdateGameRequest::PickQuestion {
                question_id: question_id.clone(),
            },
            UpdateGameRequest::AllowAnswering => UpdateGameRequest::AllowAnswering,
            UpdateGameRequest::AnswerQuestion => UpdateGameRequest::AnswerQuestion,
            UpdateGameRequest::ConfirmAnswer { is_correct } => UpdateGameRequest::ConfirmAnswer {
                is_correct: *is_correct,
            },
            UpdateGameRequest::EndQuestion => UpdateGameRequest::EndQuestion,
        }
    }
}

/// The board that a new game is to be played on.
#[derive(Debug, PartialEq)]
pub struct CreateGameRequest {
    pub rounds: Vec<Vec<Category>>,
}

impl View for CreateGameRequest {
    type V = Seq<Seq<CategoryView>>;

    open spec fn view(&self) -> Seq<Seq<CategoryView>> {
        self.rounds.deep_view()
    }
}

impl Clone for CreateGameRequest {
    fn clone(&self) -> (copy: CreateGameRequest)
        ensures
            copy@ == self@,
    {
        CreateGameRequest { rounds: clone_rounds(&self.rounds) }
    }
}

/// An error together with its sentence, as it is reported to the caller of a request.
#[derive(Clone, Copy, Debug, PartialEq)]
pub struct GameErrorResponse {
    pub error: GameError,
    pub message: &'static str,
}

impl GameErrorResponse {
    /// Pairs an error with its sentence.
    pub fn new(error: GameError) -> (response: GameErrorResponse)
        ensures
            response.error == error,
            response.message@ == message_text(error),
    {
        GameErrorResponse { error, message: error.get_message() }
    }
}

/// How many games are running.
#[derive(Clone, Copy, Debug, PartialEq, Eq, Structural)]
pub struct StatsResponse {
    pub games_count: usize,
}

} // verus!
