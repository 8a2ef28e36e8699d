//! The entities of a quiz game and the mathematical values that stand for them in contracts.
//!
//! Every executable type has a view in which text is a sequence of characters, a list is a
//! sequence and a number is an unbounded integer. The rules of the game are stated over views.

use vstd::prelude::*;

verus! {

/// What a participant may do in a game.
#[derive(Clone, Copy, Debug, PartialEq, Eq, Structural)]
pub enum PlayerRole {
    Host,
    Contestant,
    Spectator,
}

/// A question on the board, as the rules see it.
pub struct QuestionView {
    pub question_id: Seq<char>,
    pub detail: Seq<char>,
    pub correct_answer: Seq<char>,
    pub value: int,
    pub answered: bool,
}

/// A question on the board.
#[derive(Debug, PartialEq)]
pub struct Question {
    pub question_id: String,
    pub detail: String,
    pub correct_answer: String,
    pub value: isize,
    pub answered: bool,
}

impl View for Question {
    type V = QuestionView;

    open spec fn view(&self) -> QuestionView {
        QuestionView {
            question_id: self.question_id@,
            detail: self.detail@,
            correct_answer: self.correct_answer@,
            value: self.value as int,
            answered: self.answered,
        }
    }
}

impl DeepView for Question {
    type V = QuestionView;

    open spec fn deep_view(&self) -> QuestionView {
        self@
    }
}

impl Clone for Question {
    fn clone(&self) -> (copy: Question)
        ensures
            copy@ == self@,
    {
        Question {
            question_id: self.question_id.clone(),
            detail: self.detail.clone(),
            correct_answer: self.correct_answer.clone(),
            value: self.value,
            answered: self.answered,
        }
    }
}

/// A participant, as the rules see them.
pub struct PlayerView {
    pub username: Seq<char>,
    pub score: int,
    pub role: PlayerRole,
}

/// A participant and their running score.
#[derive(Debug, PartialEq)]
pub struct Player {
    pub username: String,
    pub score: isize,
    pub role: PlayerRole,
}

impl View for Player {
    type V = PlayerView;

    open spec fn view(&self) -> PlayerView {
        PlayerView { username: self.username@, score: self.score as int, role: self.role }
    }
}

impl DeepView for Player {
    type V = PlayerView;

    open spec fn deep_view(&self) -> PlayerView {
        self@
    }
}

impl Clone for Player {
    fn clone(&self) -> (copy: Player)
        ensures
            copy@ == self@,
    {
        Player { username: self.username.clone(), score: self.score, role: self.role }
    }
}

/// A column of the board, as the rules see it.
pub struct CategoryView {
    pub category_id: Seq<char>,
    pub name: Seq<char>,
    pub questions: Seq<QuestionView>,
}

/// A column of the board: a named list of questions.
#[derive(Debug, PartialEq)]
pub struct Category {
    pub category_id: String,
    pub name: String,
    pub questions: Vec<Question>,
}

impl View for Category {
    type V = CategoryView;

    open spec fn view(&self) -> CategoryView {
        CategoryView {
            category_id: self.category_id@,
            name: self.name@,
            questions: self.questions.deep_view(),
        }
    }
}

impl DeepView for Category {
    type V = CategoryView;

    open spec fn deep_view(&self) -> CategoryView {
        self@
    }
}

/// Copies a list of questions.
pub fn clone_questions(questions: &Vec<Question>) -> (copy: Vec<Question>)
    ensures
        copy.deep_view() == questions.deep_view(),
{
    let mut copy: Vec<Question> = Vec::new();
    let mut i: usize = 0;
    while i < questions.len()
        invariant
            i <= questions.len(),
            copy.len() == i,
            forall|j: int| 0 <= j < i ==> copy[j]@ == questions[j]@,
        decreases questions.len() - i,
    {
        copy.push(questions[i].clone());
        i += 1;
    }
    assert(copy.deep_view() =~= questions.deep_view());
    copy
}

impl Clone for Category {
    fn clone(&self) -> (copy: Category)
        ensures
            copy@ == self@,
    {
        Category {
            category_id: self.category_id.clone(),
            name: self.name.clone(),
            questions: clone_questions(&self.questions),
        }
    }
}

/// Copies one round of the board.
pub fn clone_round(round: &Vec<Category>) -> (copy: Vec<Category>)
    ensures
        copy.deep_view() == round.deep_view(),
{
    let mut copy: Vec<Category> = Vec::new();
    let mut i: usize = 0;
    while i < round.len()
        invariant
            i <= round.len(),
            copy.len() == i,
            forall|j: int| 0 <= j < i ==> copy[j]@ == round[j]@,
        decreases round.len() - i,
    {
        copy.push(round[i].clone());
        i += 1;
    }
    assert(copy.deep_view() =~= round.deep_view());
    copy
}

/// Copies a whole board.
pub fn clone_rounds(rounds: &Vec<Vec<Category>>) -> (copy: Vec<Vec<Category>>)
    ensures
        copy.deep_view() == rounds.deep_view(),
{
    let mut copy: Vec<Vec<Category>> = Vec::new();
    let mut i: usize = 0;
    while i < rounds.len()
        invariant
            i <= rounds.len(),
            copy.len() == i,
            forall|j: int| 0 <= j < i ==> copy[j].deep_view() == rounds[j].deep_view(),
        decreases rounds.len() - i,
    {
        copy.push(clone_round(&rounds[i]));
        i += 1;
    }
    assert(copy.deep_view() =~= rounds.deep_view());
    copy
}

/// Copies a roster.
pub fn clone_players(players: &Vec<Player>) -> (copy: Vec<Player>)
    ensures
        copy.deep_view() == players.deep_view(),
{
    let mut copy: Vec<Player> = Vec::new();
    let mut i: usize = 0;
    while i < players.len()
        invariant
            i <= players.len(),
            copy.len() == i,
            forall|j: int| 0 <= j < i ==> copy[j]@ == players[j]@,
        decreases players.len() - i,
    {
        copy.push(players[i].clone());
        i += 1;
    }
    assert(copy.deep_view() =~= players.deep_view());
    copy
}

/// The phase of a game, as the rules see it.
pub enum GameStateView {
    WaitingToStart,
    PickAQuestion,
    ReadQuestion { question: QuestionView },
    WaitingForAnswer { question: QuestionView },
    CheckAnswer { question: QuestionView, player: PlayerView },
    Finished,
}

/// The phase of a game. The question in play, and the player who buzzed in, travel inside
/// the phase itself.
#[derive(Debug, PartialEq)]
pub enum GameState {
    WaitingToStart,
    PickAQuestion,
    ReadQuestion { question: Question },
    WaitingForAnswer { question: Question },
    CheckAnswer { question: Question, player: Player },
    Finished,
}

impl View for GameState {
    type V = GameStateView;

    open spec fn view(&self) -> GameStateView {
        match self {
            GameState::WaitingToStart => GameStateView::WaitingToStart,
            GameState::PickAQuestion => GameStateView::PickAQuestion,
            GameState::ReadQuestion { question } => GameStateView::ReadQuestion {
                question: question@,
            },
            GameState::WaitingForAnswer { question } => GameStateView::WaitingForAnswer {
                question: question@,
            },
            GameState::CheckAnswer { question, player } => GameStateView::CheckAnswer {
                question: question@,
                player: player@,
            },
            GameState::Finished => GameStateView::Finished,
        }
    }
}

impl DeepView for GameState {
    type V = GameStateView;

    open spec fn deep_view(&self) -> GameStateView {
        self@
    }
}

impl Clone for GameState {
    fn clone(&self) -> (copy: GameState)
        ensures
            copy@ == self@,
    {
        match self {
            GameState::WaitingToStart => GameState::WaitingToStart,
            GameState::PickAQuestion => GameState::PickAQuestion,
            GameState::ReadQuestion { question } => GameState::ReadQuestion {
                question: question.clone(),
            },
            GameState::WaitingForAnswer { question } => GameState::WaitingForAnswer {
                question: question.clone(),
            },
            GameState::CheckAnswer { question, player } => GameState::CheckAnswer {
                question: question.clone(),
                player: player.clone(),
            },
            GameState::Finished => GameState::Finished,
        }
    }
}

/// One line of a game's history, as the rules see it.
pub enum GameLogView {
    GameCreated { time: int },
    GameStarted { time: int },
    QuestionPicked { time: int, question_id: Seq<char> },
    PlayerBuzzedIn { time: int, username: Seq<char> },
    AnswerConfirmed {
        time: int,
        username: Seq<char>,
        is_correct: bool,
        points_change: int,
        question_id: Seq<char>,
    },
    QuestionPassed { time: int, question_id: Seq<char> },
}

/// One line of a game's history. `time` counts milliseconds since the Unix epoch.
#[derive(Debug, PartialEq)]
pub enum GameLog {
    GameCreated { time: u128 },
    GameStarted { time: u128 },
    QuestionPicked { time: u128, question_id: String },
    PlayerBuzzedIn { time: u128, username: String },
    AnswerConfirmed {
        time: u128,
        username: String,
        is_correct: bool,
        points_change: isize,
        question_id: String,
    },
    QuestionPassed { time: u128, question_id: String },
}

impl View for GameLog {
    type V = GameLogView;

    open spec fn view(&self) -> GameLogView {
        match self {
            GameLog::GameCreated { time } => GameLogView::GameCreated { time: *time as int },
            GameLog::GameStarted { time } => GameLogView::GameStarted { time: *time as int },
            GameLog::QuestionPicked { time, question_id } => GameLogView::QuestionPicked {
                time: *time as int,
                question_id: question_id@,
            },
            GameLog::PlayerBuzzedIn { time, username } => GameLogView::PlayerBuzzedIn {
                time: *time as int,
                username: username@,
            },
            GameLog::AnswerConfirmed {
                time,
                username,
                is_correct,
                points_change,
                question_id,
            } => GameLogView::AnswerConfirmed {
                time: *time as int,
                username: username@,
                is_correct: *is_correct,
                points_change: *points_change as int,
                question_id: question_id@,
            },
            GameLog::QuestionPassed { time, question_id } => GameLogView::QuestionPassed {
                time: *time as int,
                question_id: question_id@,
            },
        }
    }
}

impl DeepView for GameLog {
    type V = GameLogView;

    open spec fn deep_view(&self) -> GameLogView {
        self@
    }
}

impl Clone for GameLog {
    fn clone(&self) -> (copy: GameLog)
        ensures
            copy@ == self@,
    {
        match self {
            GameLog::GameCreated { time } => GameLog::GameCreated { time: *time },
            GameLog::GameStarted { time } => GameLog::GameStarted { time: *time },
            GameLog::QuestionPicked { time, question_id } => GameLog::QuestionPicked {
                time: *time,
                question_id: question_id.clone(),
            },
            GameLog::PlayerBuzzedIn { time, username } => GameLog::PlayerBuzzedIn {
                time: *time,
                username: username.clone(),
            },
            GameLog::AnswerConfirmed {
                time,
                username,
                is_correct,
                points_change,
                question_id,
            } => GameLog::AnswerConfirmed {
                time: *time,
                username: username.clone(),
                is_correct: *is_correct,
                points_change: *points_change,
                question_id: question_id.clone(),
            },
            GameLog::QuestionPassed { time, question_id } => GameLog::QuestionPassed {
                time: *time,
                question_id: question_id.clone(),
            },
        }
    }
}

/// Copies a history.
pub fn clone_log(log: &Vec<GameLog>) -> (copy: Vec<GameLog>)
    ensures
        copy.deep_view() == log.deep_view(),
{
    let mut copy: Vec<GameLog> = Vec::new();
    let mut i: usize = 0;
    while i < log.len()
        invariant
            i <= log.len(),
            copy.len() == i,
            forall|j: int| 0 <= j < i ==> copy[j]@ == log[j]@,
        decreases log.len() - i,
    {
        copy.push(log[i].clone());
        i += 1;
    }
    assert(copy.deep_view() =~= log.deep_view());
    copy
}

/// A whole game, as the rules see it.
pub struct GameView {
    pub id: Seq<char>,
    pub players: Seq<PlayerView>,
    pub last_winner: Seq<char>,
    pub rounds: Seq<Seq<CategoryView>>,
    pub current_round: int,
    pub state: GameStateView,
    pub log: Seq<GameLogView>,
}

/// A whole game: the roster, the board in rounds, the phase and the history.
#[derive(Debug, PartialEq)]
pub struct Game {
    pub id: String,
    pub players: Vec<Player>,
    pub last_winner: String,
    pub rounds: Vec<Vec<Category>>,
    pub current_round: usize,
    pub state: GameState,
    pub log: Vec<GameLog>,
}

impl View for Game {
    type V = GameView;

    open spec fn view(&self) -> GameView {
        GameView {
            id: self.id@,
            players: self.players.deep_view(),
            last_winner: self.last_winner@,
            rounds: self.rounds.deep_view(),
            current_round: self.current_round as int,
            state: self.state@,
            log: self.log.deep_view(),
        }
    }
}

impl DeepView for Game {
    type V = GameView;

    open spec fn deep_view(&self) -> GameView {
        self@
    }
}

impl Clone for Game {
    fn clone(&self) -> (copy: Game)
        ensures
            copy@ == self@,
    {
        Game {
            id: self.id.clone(),
            players: clone_players(&self.players),
            last_winner: self.last_winner.clone(),
            rounds: clone_rounds(&self.rounds),
            current_round: self.current_round,
            state: self.state.clone(),
            log: clone_log(&self.log),
        }
    }
}

} // verus!
