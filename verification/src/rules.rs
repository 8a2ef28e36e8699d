//! The rules of the game as mathematics: for each request, the game that results, whether the
//! request is granted, and what the observers are told.
//!
//! Nothing here runs. The executable handlers are proved to do exactly what these functions
//! say, and the laws of the game are proved about these functions.

use vstd::prelude::*;
use crate::dto::{error_report, overview_of, MessageView, RequestView};
use crate::error::GameError;
use crate::models::{
    CategoryView, GameLogView, GameStateView, GameView, PlayerRole, PlayerView, QuestionView,
};

verus! {

/// The longest username that may join, in characters.
pub const MAX_USERNAME_LENGTH: usize = 20;

/// The index of the first player at or after `start` who is called `username`.
pub open spec fn player_from(players: Seq<PlayerView>, username: Seq<char>, start: int) -> Option<int>
    decreases players.len() - start,
{
    if start < 0 || start >= players.len() {
        None
    } else if players[start].username == username {
        Some(start)
    } else {
        player_from(players, username, start + 1)
    }
}

/// The index of the first player who is called `username`.
pub open spec fn find_player(players: Seq<PlayerView>, username: Seq<char>) -> Option<int> {
    player_from(players, username, 0)
}

/// A roster is in order when no two of its players have the same name and no name is longer
/// than [`MAX_USERNAME_LENGTH`] characters.
pub open spec fn roster_ok(players: Seq<PlayerView>) -> bool {
    &&& forall|i: int, j: int|
        0 <= i < j < players.len() ==> (#[trigger] players[i]).username != (
        #[trigger] players[j]).username
    &&& forall|i: int|
        0 <= i < players.len() ==> (#[trigger] players[i]).username.len() <= MAX_USERNAME_LENGTH
}

/// The role in which `username` acts: the one on the roster, a contestant's for a stranger.
pub open spec fn acting_role(players: Seq<PlayerView>, username: Seq<char>) -> PlayerRole {
    match find_player(players, username) {
        Some(i) => players[i].role,
        None => PlayerRole::Contestant,
    }
}

/// Where a question stands on the board.
pub struct Place {
    pub round: int,
    pub category: int,
    pub question: int,
}

/// Whether a search for `id` stops at `question`: a search for an open question passes over
/// those already answered.
pub open spec fn wanted(question: QuestionView, id: Seq<char>, open_only: bool) -> bool {
    question.question_id == id && (open_only ==> !question.answered)
}

/// The index of the first wanted question at or after `start`.
pub open spec fn question_from(
    questions: Seq<QuestionView>,
    id: Seq<char>,
    open_only: bool,
    start: int,
) -> Option<int>
    decreases questions.len() - start,
{
    if start < 0 || start >= questions.len() {
        None
    } else if wanted(questions[start], id, open_only) {
        Some(start)
    } else {
        question_from(questions, id, open_only, start + 1)
    }
}

/// The first wanted question of a round in the categories at or after `start`, as the index
/// of its category and its index there.
pub open spec fn category_from(
    round: Seq<CategoryView>,
    id: Seq<char>,
    open_only: bool,
    start: int,
) -> Option<(int, int)>
    decreases round.len() - start,
{
    if start < 0 || start >= round.len() {
        None
    } else {
        match question_from(round[start].questions, id, open_only, 0) {
            Some(q) => Some((start, q)),
            None => category_from(round, id, open_only, start + 1),
        }
    }
}

/// The first wanted question of the board in the rounds at or after `start`.
pub open spec fn round_from(
    rounds: Seq<Seq<CategoryView>>,
    id: Seq<char>,
    open_only: bool,
    start: int,
) -> Option<Place>
    decreases rounds.len() - start,
{
    if start < 0 || start >= rounds.len() {
        None
    } else {
        match category_from(rounds[start], id, open_only, 0) {
            Some((c, q)) => Some(Place { round: start, category: c, question: q }),
            None => round_from(rounds, id, open_only, start + 1),
        }
    }
}

/// The first question of the whole board with this id, answered or not.
pub open spec fn find_question(rounds: Seq<Seq<CategoryView>>, id: Seq<char>) -> Option<Place> {
    round_from(rounds, id, false, 0)
}

/// The first question of one round that has this id and is still open.
pub open spec fn find_open_question(round: Seq<CategoryView>, id: Seq<char>) -> Option<(int, int)> {
    category_from(round, id, true, 0)
}

/// The question at a place of the board.
pub open spec fn question_at(rounds: Seq<Seq<CategoryView>>, place: Place) -> QuestionView {
    rounds[place.round][place.category].questions[place.question]
}

/// The board with the question at `place` replaced.
pub open spec fn with_question(
    rounds: Seq<Seq<CategoryView>>,
    place: Place,
    question: QuestionView,
) -> Seq<Seq<CategoryView>> {
    let round = rounds[place.round];
    let category = round[place.category];
    rounds.update(
        place.round,
        round.update(
            place.category,
            CategoryView {
                questions: category.questions.update(place.question, question),
                ..category
            },
        ),
    )
}

/// A question once it has been answered or passed.
pub open spec fn answered(question: QuestionView) -> QuestionView {
    QuestionView { answered: true, ..question }
}

/// Every question of the list is answered.
pub open spec fn questions_done(questions: Seq<QuestionView>) -> bool {
    forall|q: int| 0 <= q < questions.len() ==> (#[trigger] questions[q]).answered
}

/// Every question of the round is answered.
pub open spec fn round_done(round: Seq<CategoryView>) -> bool {
    forall|c: int| 0 <= c < round.len() ==> questions_done((#[trigger] round[c]).questions)
}

/// Every question of every round is answered.
pub open spec fn board_done(rounds: Seq<Seq<CategoryView>>) -> bool {
    forall|r: int| 0 <= r < rounds.len() ==> round_done(#[trigger] rounds[r])
}

impl GameView {
    /// A game is well formed when its current round is a round of the board and every round
    /// before it has been played out.
    pub open spec fn wf(self) -> bool {
        &&& 0 <= self.current_round < self.rounds.len()
        &&& forall|r: int| 0 <= r < self.current_round ==> round_done(#[trigger] self.rounds[r])
    }
}

/// What a request leads to: the game afterwards, whether the request was granted, and the
/// messages published while it was handled.
pub struct Outcome {
    pub game: GameView,
    pub result: Result<(), GameError>,
    pub published: Seq<MessageView>,
}

/// The request is turned down: the game stays as it was and nothing is published.
pub open spec fn refused(game: GameView, error: GameError) -> Outcome {
    Outcome { game, result: Err(error), published: Seq::empty() }
}

/// The request is granted and leads to `game`, with nothing published.
pub open spec fn granted(game: GameView) -> Outcome {
    Outcome { game, result: Ok(()), published: Seq::empty() }
}

/// The host starts a game that is waiting to start.
pub open spec fn start_game(game: GameView, role: PlayerRole, time: int) -> Outcome {
    if role != PlayerRole::Host {
        refused(game, GameError::InsufficientPermissions)
    } else if !(game.state is WaitingToStart) {
        refused(game, GameError::InvalidGameState)
    } else {
        granted(
            GameView {
                state: GameStateView::PickAQuestion,
                log: game.log.push(GameLogView::GameStarted { time }),
                ..game
            },
        )
    }
}

/// A participant leaves. Their connection is always told to end; they come off the roster
/// only while the game is waiting to start, so that a scoreboard entry outlives a departure
/// in mid-game.
pub open spec fn leave_game(game: GameView, username: Seq<char>) -> Outcome {
    let after = match find_player(game.players, username) {
        Some(i) if game.state is WaitingToStart => GameView {
            players: game.players.remove(i),
            ..game
        },
        _ => game,
    };
    Outcome {
        game: after,
        result: Ok(()),
        published: seq![MessageView::EndSession { username }],
    }
}

/// A question of the current round is picked: it has to be open, and it is then read out.
pub open spec fn pick_question(game: GameView, question_id: Seq<char>, time: int) -> Outcome {
    if !(game.state is PickAQuestion) {
        refused(game, GameError::InvalidGameState)
    } else {
        match find_open_question(game.rounds[game.current_round], question_id) {
            Some((c, q)) => {
                let question = game.rounds[game.current_round][c].questions[q];
                granted(
                    GameView {
                        state: GameStateView::ReadQuestion { question },
                        log: game.log.push(
                            GameLogView::QuestionPicked { time, question_id: question.question_id },
                        ),
                        ..game
                    },
                )
            },
            None => refused(game, GameError::QuestionNotFound),
        }
    }
}

/// The host has read the question out: contestants may buzz in.
pub open spec fn allow_answering(game: GameView, role: PlayerRole) -> Outcome {
    if role != PlayerRole::Host {
        refused(game, GameError::InsufficientPermissions)
    } else {
        match game.state {
            GameStateView::ReadQuestion { question } => granted(
                GameView { state: GameStateView::WaitingForAnswer { question }, ..game },
            ),
            _ => refused(game, GameError::InvalidGameState),
        }
    }
}

/// A participant buzzes in. The first to do so is heard; who comes while an answer is being
/// checked is told that someone was faster.
pub open spec fn answer_question(game: GameView, username: Seq<char>, time: int) -> Outcome {
    match game.state {
        GameStateView::WaitingForAnswer { question } => match find_player(game.players, username) {
            Some(i) => granted(
                GameView {
                    state: GameStateView::CheckAnswer { question, player: game.players[i] },
                    log: game.log.push(GameLogView::PlayerBuzzedIn { time, username }),
                    ..game
                },
            ),
            None => refused(game, GameError::PlayerNotFound),
        },
        GameStateView::CheckAnswer { .. } => refused(game, GameError::AlreadyAnswered),
        _ => refused(game, GameError::InvalidGameState),
    }
}

/// The step shared by every way of closing a question: the first question of the board with
/// this id is marked as answered and shown to the observers. Then, in this order: a board
/// with nothing left ends the game; else a current round with nothing left gives way to the
/// next; and a game that goes on waits for the next pick.
pub open spec fn mark_question_answered(game: GameView, question_id: Seq<char>) -> Outcome {
    match find_question(game.rounds, question_id) {
        Some(place) => {
            let question = answered(question_at(game.rounds, place));
            let rounds = with_question(game.rounds, place, question);
            let finished = board_done(rounds);
            Outcome {
                game: GameView {
                    rounds,
                    state: if finished {
                        GameStateView::Finished
                    } else {
                        GameStateView::PickAQuestion
                    },
                    current_round: if !finished && round_done(rounds[game.current_round]) {
                        game.current_round + 1
                    } else {
                        game.current_round
                    },
                    ..game
                },
                result: Ok(()),
                published: seq![MessageView::QuestionUpdate { question }],
            }
        },
        None => refused(game, GameError::QuestionNotFound),
    }
}

/// The roster with `change` added to the score of the player at `index`.
pub open spec fn with_score_change(players: Seq<PlayerView>, index: int, change: int) -> Seq<PlayerView> {
    players.update(index, PlayerView { score: players[index].score + change, ..players[index] })
}

/// The answer of the player who buzzed in is judged. A right answer earns the value of the
/// question, makes the player the last winner and closes the question. A wrong answer costs
/// the value of the question and lets the others buzz in again.
pub open spec fn confirm_answer(game: GameView, is_correct: bool, time: int) -> Outcome {
    match game.state {
        GameStateView::CheckAnswer { question, player } => match find_player(
            game.players,
            player.username,
        ) {
            Some(i) => {
                let entry = GameLogView::AnswerConfirmed {
                    time,
                    username: player.username,
                    is_correct,
                    points_change: question.value,
                    question_id: question.question_id,
                };
                if is_correct {
                    let rewarded = GameView {
                        players: with_score_change(game.players, i, question.value),
                        last_winner: player.username,
                        ..game
                    };
                    let marked = mark_question_answered(rewarded, question.question_id);
                    match marked.result {
                        Ok(_) => Outcome {
                            game: GameView { log: marked.game.log.push(entry), ..marked.game },
                            ..marked
                        },
                        Err(error) => refused(game, error),
                    }
                } else {
                    granted(
                        GameView {
                            players: with_score_change(game.players, i, -question.value),
                            state: GameStateView::WaitingForAnswer { question },
                            log: game.log.push(entry),
                            ..game
                        },
                    )
                }
            },
            None => refused(game, GameError::PlayerNotFound),
        },
        _ => refused(game, GameError::InvalidGameState),
    }
}

/// The host gives up on a question that nobody answers: it is closed and no score changes.
pub open spec fn end_question(game: GameView, role: PlayerRole, time: int) -> Outcome {
    if role != PlayerRole::Host {
        refused(game, GameError::InsufficientPermissions)
    } else {
        match game.state {
            GameStateView::WaitingForAnswer { question } => {
                let marked = mark_question_answered(game, question.question_id);
                match marked.result {
                    Ok(_) => Outcome {
                        game: GameView {
                            log: marked.game.log.push(
                                GameLogView::QuestionPassed {
                                    time,
                                    question_id: question.question_id,
                                },
                            ),
                            ..marked.game
                        },
                        ..marked
                    },
                    Err(error) => refused(game, error),
                }
            },
            _ => refused(game, GameError::InvalidGameState),
        }
    }
}

/// A participant joins. Who is on the roster already comes back under the new role; a
/// stranger is added with no points, but once the game has started only as a spectator.
pub open spec fn join(game: GameView, username: Seq<char>, role: PlayerRole) -> Outcome {
    match find_player(game.players, username) {
        Some(i) => granted(
            GameView {
                players: game.players.update(i, PlayerView { role, ..game.players[i] }),
                ..game
            },
        ),
        None => if role != PlayerRole::Spectator && !(game.state is WaitingToStart) {
            refused(game, GameError::NewPlayerCannotJoinAfterStart)
        } else {
            granted(
                GameView {
                    players: game.players.push(PlayerView { username, score: 0, role }),
                    ..game
                },
            )
        },
    }
}

/// What the handler of each kind of request does, in the role in which `username` acts.
pub open spec fn dispatch(game: GameView, username: Seq<char>, request: RequestView, time: int) -> Outcome {
    let role = acting_role(game.players, username);
    match request {
        RequestView::StartGame => start_game(game, role, time),
        RequestView::LeaveGame => leave_game(game, username),
        RequestView::PickQuestion { question_id } => pick_question(game, question_id, time),
        RequestView::AllowAnswering => allow_answering(game, role),
        RequestView::AnswerQuestion => answer_question(game, username, time),
        RequestView::ConfirmAnswer { is_correct } => confirm_answer(game, is_correct, time),
        RequestView::EndQuestion => end_question(game, role, time),
    }
}

/// A request handled from end to end: after the handler, a granted request tells everyone
/// the new summary of the game, and a refused one tells its sender why.
pub open spec fn handle(game: GameView, username: Seq<char>, request: RequestView, time: int) -> Outcome {
    let handled = dispatch(game, username, request, time);
    let last = match handled.result {
        Ok(_) => MessageView::GameUpdate { game: overview_of(handled.game) },
        Err(error) => error_report(error, username),
    };
    Outcome { published: handled.published.push(last), ..handled }
}

/// Whether judging the answer keeps the score of the player who buzzed in within the
/// machine's integers.
pub open spec fn score_fits(game: GameView, is_correct: bool) -> bool {
    game.state matches GameStateView::CheckAnswer { question, player } ==> (find_player(
        game.players,
        player.username,
    ) matches Some(i) ==> {
        let change = if is_correct {
            question.value
        } else {
            -question.value
        };
        isize::MIN <= game.players[i].score + change <= isize::MAX
    })
}

/// Whether handling the request keeps every score within the machine's integers.
pub open spec fn request_fits(game: GameView, request: RequestView) -> bool {
    request matches RequestView::ConfirmAnswer { is_correct } ==> score_fits(game, is_correct)
}

/// Whether `place` is a place of the board.
pub open spec fn valid_place(rounds: Seq<Seq<CategoryView>>, place: Place) -> bool {
    &&& 0 <= place.round < rounds.len()
    &&& 0 <= place.category < rounds[place.round].len()
    &&& 0 <= place.question < rounds[place.round][place.category].questions.len()
}

/// A search of the roster finds the first player of that name, and none where there is none.
pub proof fn lemma_player_from(players: Seq<PlayerView>, username: Seq<char>, start: int)
    requires
        0 <= start,
    ensures
        match player_from(players, username, start) {
            Some(i) => start <= i < players.len() && players[i].username == username
                && forall|j: int| start <= j < i ==> players[j].username != username,
            None => forall|j: int| start <= j < players.len() ==> players[j].username != username,
        },
    decreases players.len() - start,
{
    if start < players.len() && players[start].username != username {
        lemma_player_from(players, username, start + 1);
    }
}

/// A search of a list of questions finds the first wanted one, and none where there is none.
pub proof fn lemma_question_from(
    questions: Seq<QuestionView>,
    id: Seq<char>,
    open_only: bool,
    start: int,
)
    requires
        0 <= start,
    ensures
        match question_from(questions, id, open_only, start) {
            Some(q) => start <= q < questions.len() && wanted(questions[q], id, open_only)
                && forall|j: int| start <= j < q ==> !wanted(questions[j], id, open_only),
            None => forall|j: int|
                start <= j < questions.len() ==> !wanted(questions[j], id, open_only),
        },
    decreases questions.len() - start,
{
    if start < questions.len() && !wanted(questions[start], id, open_only) {
        lemma_question_from(questions, id, open_only, start + 1);
    }
}

/// A search of a round finds a wanted question in its first category that has one.
pub proof fn lemma_category_from(round: Seq<CategoryView>, id: Seq<char>, open_only: bool, start: int)
    requires
        0 <= start,
    ensures
        match category_from(round, id, open_only, start) {
            Some((c, q)) => start <= c < round.len() && question_from(
                round[c].questions,
                id,
                open_only,
                0,
            ) == Some(q) && 0 <= q < round[c].questions.len() && wanted(
                round[c].questions[q],
                id,
                open_only,
            ) && forall|j: int|
                start <= j < c ==> question_from(round[j].questions, id, open_only, 0) is None,
            None => forall|j: int|
                start <= j < round.len() ==> question_from(round[j].questions, id, open_only, 0)
                    is None,
        },
    decreases round.len() - start,
{
    if start < round.len() {
        lemma_question_from(round[start].questions, id, open_only, 0);
        if question_from(round[start].questions, id, open_only, 0) is None {
            lemma_category_from(round, id, open_only, start + 1);
        }
    }
}

/// A search of the board finds a wanted question in its first round that has one.
pub proof fn lemma_round_from(
    rounds: Seq<Seq<CategoryView>>,
    id: Seq<char>,
    open_only: bool,
    start: int,
)
    requires
        0 <= start,
    ensures
        match round_from(rounds, id, open_only, start) {
            Some(place) => start <= place.round && valid_place(rounds, place) && category_from(
                rounds[place.round],
                id,
                open_only,
                0,
            ) == Some((place.category, place.question)) && wanted(
                question_at(rounds, place),
                id,
                open_only,
            ) && forall|j: int|
                start <= j < place.round ==> category_from(rounds[j], id, open_only, 0) is None,
            None => forall|j: int|
                start <= j < rounds.len() ==> category_from(rounds[j], id, open_only, 0) is None,
        },
    decreases rounds.len() - start,
{
    if start < rounds.len() {
        lemma_category_from(rounds[start], id, open_only, 0);
        if category_from(rounds[start], id, open_only, 0) is None {
            lemma_round_from(rounds, id, open_only, start + 1);
        }
    }
}

} // verus!
