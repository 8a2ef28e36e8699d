//! What holds of the game whatever is asked of it, proved from the rules.

use vstd::prelude::*;
use crate::dto::{error_report, overview_of, MessageView, RequestView};
use crate::error::GameError;
use crate::models::{
    CategoryView, GameStateView, GameView, PlayerRole, PlayerView, QuestionView,
};
use crate::registry::{acceptable, after_create, is_code, Creation};
use crate::rules::{
    acting_role, answered, board_done, category_from, confirm_answer, dispatch,
    find_open_question, find_player, find_question, handle, join, leave_game,
    lemma_category_from, lemma_player_from, lemma_question_from, lemma_round_from,
    mark_question_answered, question_at, question_from, questions_done, roster_ok, round_done,
    start_game, valid_place, wanted, with_question, Place, MAX_USERNAME_LENGTH,
};
use crate::session::EntryView;

verus! {

/// Closing a question changes the board at one place and leaves its shape as it is; a round
/// that was played out stays played out.
pub proof fn lemma_closing_keeps_rounds_done(rounds: Seq<Seq<CategoryView>>, place: Place)
    requires
        valid_place(rounds, place),
    ensures
        with_question(rounds, place, answered(question_at(rounds, place))).len() == rounds.len(),
        forall|r: int|
            0 <= r < rounds.len() && round_done(rounds[r]) ==> round_done(
                #[trigger] with_question(rounds, place, answered(question_at(rounds, place)))[r],
            ),
{
    let after = with_question(rounds, place, answered(question_at(rounds, place)));
    assert forall|r: int| 0 <= r < rounds.len() && round_done(rounds[r]) implies round_done(
        #[trigger] after[r],
    ) by {
        if r == place.round {
            assert forall|c: int| 0 <= c < after[r].len() implies questions_done(
                (#[trigger] after[r][c]).questions,
            ) by {
                assert(questions_done(rounds[r][c].questions));
                if c == place.category {
                    assert forall|q: int| 0 <= q < after[r][c].questions.len() implies (
                    #[trigger] after[r][c].questions[q]).answered by {
                        if q != place.question {
                            assert(rounds[r][c].questions[q].answered);
                        }
                    }
                }
            }
        }
    }
}

/// Closing a question keeps a game well formed: the current round moves on only where a
/// later round is still to be played.
pub proof fn lemma_closing_keeps_well_formed(game: GameView, question_id: Seq<char>)
    requires
        game.wf(),
    ensures
        mark_question_answered(game, question_id).game.wf(),
        mark_question_answered(game, question_id).game.id == game.id,
{
    lemma_round_from(game.rounds, question_id, false, 0);
    match find_question(game.rounds, question_id) {
        Some(place) => {
            lemma_closing_keeps_rounds_done(game.rounds, place);
            let after = mark_question_answered(game, question_id).game;
            assert forall|r: int| 0 <= r < game.current_round implies round_done(
                #[trigger] after.rounds[r],
            ) by {
                assert(round_done(game.rounds[r]));
            }
            if !board_done(after.rounds) && round_done(after.rounds[game.current_round]) {
                if game.current_round + 1 >= after.rounds.len() {
                    assert forall|r: int| 0 <= r < after.rounds.len() implies round_done(
                        #[trigger] after.rounds[r],
                    ) by {
                        if r < game.current_round {
                            assert(round_done(game.rounds[r]));
                        }
                    }
                }
            }
        },
        None => {},
    }
}

/// Whatever is asked of a well-formed game, it stays well formed and keeps its code.
pub proof fn lemma_handling_keeps_well_formed(
    game: GameView,
    username: Seq<char>,
    request: RequestView,
    time: int,
)
    requires
        game.wf(),
    ensures
        handle(game, username, request, time).game.wf(),
        handle(game, username, request, time).game.id == game.id,
{
    match request {
        RequestView::ConfirmAnswer { is_correct } => {
            match game.state {
                GameStateView::CheckAnswer { question, player } => {
                    match find_player(game.players, player.username) {
                        Some(i) => {
                            let rewarded = GameView {
                                players: crate::rules::with_score_change(
                                    game.players,
                                    i,
                                    question.value,
                                ),
                                last_winner: player.username,
                                ..game
                            };
                            lemma_closing_keeps_well_formed(rewarded, question.question_id);
                        },
                        None => {},
                    }
                },
                _ => {},
            }
        },
        RequestView::EndQuestion => {
            match game.state {
                GameStateView::WaitingForAnswer { question } => {
                    lemma_closing_keeps_well_formed(game, question.question_id);
                },
                _ => {},
            }
        },
        _ => {},
    }
}

/// Whoever joins, a well-formed game stays well formed and keeps its code.
pub proof fn lemma_joining_keeps_well_formed(game: GameView, username: Seq<char>, role: PlayerRole)
    requires
        game.wf(),
    ensures
        join(game, username, role).game.wf(),
        join(game, username, role).game.id == game.id,
{
}

/// The requests that only the host may make.
pub open spec fn host_only(request: RequestView) -> bool {
    request is StartGame || request is AllowAnswering || request is EndQuestion
}

/// The phase in which each kind of request is in order. Leaving is in order in every phase.
pub open spec fn in_order(state: GameStateView, request: RequestView) -> bool {
    match request {
        RequestView::StartGame => state is WaitingToStart,
        RequestView::LeaveGame => true,
        RequestView::PickQuestion { .. } => state is PickAQuestion,
        RequestView::AllowAnswering => state is ReadQuestion,
        RequestView::AnswerQuestion => state is WaitingForAnswer,
        RequestView::ConfirmAnswer { .. } => state is CheckAnswer,
        RequestView::EndQuestion => state is WaitingForAnswer,
    }
}

/// The rules answer every request in every phase. A request that is out of order in the
/// phase of the game is refused as an invalid state of the game, the game stays as it was,
/// and only the sender is told. Two refusals come first and are left out here: a request
/// that only the host may make, made by another, is refused for want of permission
/// whatever the phase; and buzzing in while an answer is being checked is refused as
/// already answered.
pub proof fn lemma_out_of_order_is_refused(
    game: GameView,
    username: Seq<char>,
    request: RequestView,
    time: int,
)
    requires
        !in_order(game.state, request),
        host_only(request) ==> acting_role(game.players, username) == PlayerRole::Host,
        !(request is AnswerQuestion && game.state is CheckAnswer),
    ensures
        dispatch(game, username, request, time).result == Err::<(), GameError>(
            GameError::InvalidGameState,
        ),
        handle(game, username, request, time).game == game,
        handle(game, username, request, time).published == seq![
            error_report(GameError::InvalidGameState, username),
        ],
{
    assert(handle(game, username, request, time).published =~= seq![
        error_report(GameError::InvalidGameState, username),
    ]);
}

/// Whatever the request and whatever the reason, a refusal leaves the game as it was, and
/// the only message is the report to the sender.
pub proof fn lemma_refusal_changes_nothing(
    game: GameView,
    username: Seq<char>,
    request: RequestView,
    time: int,
)
    requires
        handle(game, username, request, time).result is Err,
    ensures
        handle(game, username, request, time).game == game,
        handle(game, username, request, time).published == seq![
            error_report(handle(game, username, request, time).result->Err_0, username),
        ],
{
    assert(handle(game, username, request, time).published =~= seq![
        error_report(handle(game, username, request, time).result->Err_0, username),
    ]);
}

/// Whatever the request, a granted one tells everyone the new summary of the game, once and
/// as the last message of the step.
pub proof fn lemma_grant_publishes_one_update(
    game: GameView,
    username: Seq<char>,
    request: RequestView,
    time: int,
)
    requires
        handle(game, username, request, time).result is Ok,
    ensures
        ({
            let step = handle(game, username, request, time);
            &&& step.published.len() >= 1
            &&& step.published.last() == MessageView::GameUpdate { game: overview_of(step.game) }
            &&& forall|i: int|
                0 <= i < step.published.len() - 1 ==> !((#[trigger] step.published[i]) is GameUpdate)
        }),
{
}

/// Starting a game cannot be repeated: once a start has been granted the game waits for a
/// pick, and a second start by the host is refused as an invalid state of the game and
/// leaves it waiting for a pick.
pub proof fn lemma_second_start_is_refused(game: GameView, role: PlayerRole, first: int, second: int)
    requires
        start_game(game, role, first).result is Ok,
    ensures
        start_game(game, role, first).game.state is PickAQuestion,
        start_game(start_game(game, role, first).game, PlayerRole::Host, second).result == Err::<
            (),
            GameError,
        >(GameError::InvalidGameState),
        start_game(start_game(game, role, first).game, PlayerRole::Host, second).game
            == start_game(game, role, first).game,
{
}

/// Judging an answer moves the score of the player who buzzed in by exactly the value of
/// the question, up for a right answer and down for a wrong one, and moves no other score.
/// After a wrong answer the same question is open for buzzing in again.
pub proof fn lemma_judging_moves_one_score(game: GameView, is_correct: bool, time: int)
    requires
        game.state is CheckAnswer,
        confirm_answer(game, is_correct, time).result is Ok,
    ensures
        ({
            let question = game.state->CheckAnswer_question;
            let player = game.state->CheckAnswer_player;
            let after = confirm_answer(game, is_correct, time).game;
            &&& find_player(game.players, player.username) matches Some(i)
            &&& after.players.len() == game.players.len()
            &&& after.players[i].score == if is_correct {
                game.players[i].score + question.value
            } else {
                game.players[i].score - question.value
            }
            &&& forall|j: int|
                0 <= j < game.players.len() && j != i ==> after.players[j] == game.players[j]
            &&& !is_correct ==> after.state == GameStateView::WaitingForAnswer { question }
        }),
{
    let player = game.state->CheckAnswer_player;
    lemma_player_from(game.players, player.username, 0);
}

/// Who may join. A stranger who is no spectator is kept out of a game that has started,
/// and the game stays as it was. A spectator is never kept out. Who is on the roster
/// already comes back under the new role, with their name and score, and the roster is no
/// longer than before; a stranger who is let in comes last, with no points.
pub proof fn lemma_join(game: GameView, username: Seq<char>, role: PlayerRole)
    ensures
        find_player(game.players, username) is None && role != PlayerRole::Spectator && !(game.state
            is WaitingToStart) ==> join(game, username, role) == crate::rules::refused(
            game,
            GameError::NewPlayerCannotJoinAfterStart,
        ),
        role == PlayerRole::Spectator ==> join(game, username, role).result is Ok,
        find_player(game.players, username) matches Some(i) ==> {
            let after = join(game, username, role);
            &&& after.result is Ok
            &&& after.game.players.len() == game.players.len()
            &&& after.game.players[i] == (PlayerView { role, ..game.players[i] })
            &&& forall|j: int|
                0 <= j < game.players.len() && j != i ==> after.game.players[j] == game.players[j]
        },
        find_player(game.players, username) is None && join(game, username, role).result is Ok
            ==> join(game, username, role).game.players == game.players.push(
            PlayerView { username, score: 0, role },
        ),
{
    lemma_player_from(game.players, username, 0);
}

/// Joining never puts a name on the roster twice, and a name of at most so many characters
/// leaves no longer name on it.
pub proof fn lemma_joining_keeps_roster(game: GameView, username: Seq<char>, role: PlayerRole)
    requires
        roster_ok(game.players),
        username.len() <= MAX_USERNAME_LENGTH,
    ensures
        roster_ok(join(game, username, role).game.players),
{
    lemma_player_from(game.players, username, 0);
    let after = join(game, username, role).game.players;
    assert forall|i: int, j: int| 0 <= i < j < after.len() implies (#[trigger] after[i]).username
        != (#[trigger] after[j]).username by {
        if after.len() == game.players.len() {
            assert(after[i].username == game.players[i].username);
            assert(after[j].username == game.players[j].username);
        } else {
            if j < game.players.len() {
                assert(after[i] == game.players[i]);
                assert(after[j] == game.players[j]);
            } else {
                assert(after[i] == game.players[i]);
            }
        }
    }
    assert forall|i: int| 0 <= i < after.len() implies (#[trigger] after[i]).username.len()
        <= MAX_USERNAME_LENGTH by {
        if i < game.players.len() {
            assert(after[i].username == game.players[i].username);
        }
    }
}

/// Whatever is asked of a game, its roster stays in order: no request adds a name.
pub proof fn lemma_handling_keeps_roster(
    game: GameView,
    username: Seq<char>,
    request: RequestView,
    time: int,
)
    requires
        roster_ok(game.players),
    ensures
        roster_ok(handle(game, username, request, time).game.players),
{
    let after = handle(game, username, request, time).game.players;
    match request {
        RequestView::LeaveGame => {
            lemma_player_from(game.players, username, 0);
            if after != game.players {
                let gone = find_player(game.players, username)->Some_0;
                assert forall|i: int, j: int| 0 <= i < j < after.len() implies (
                #[trigger] after[i]).username != (#[trigger] after[j]).username by {
                    let from_i = if i < gone { i } else { i + 1 };
                    let from_j = if j < gone { j } else { j + 1 };
                    assert(after[i] == game.players[from_i]);
                    assert(after[j] == game.players[from_j]);
                }
                assert forall|i: int| 0 <= i < after.len() implies (
                #[trigger] after[i]).username.len() <= MAX_USERNAME_LENGTH by {
                    let from_i = if i < gone { i } else { i + 1 };
                    assert(after[i] == game.players[from_i]);
                }
            }
        },
        RequestView::ConfirmAnswer { is_correct } => {
            match game.state {
                GameStateView::CheckAnswer { question, player } => {
                    lemma_player_from(game.players, player.username, 0);
                    if after != game.players {
                        assert(after.len() == game.players.len());
                        assert forall|i: int| 0 <= i < after.len() implies (
                        #[trigger] after[i]).username == game.players[i].username by {}
                        assert forall|i: int, j: int| 0 <= i < j < after.len() implies (
                        #[trigger] after[i]).username != (#[trigger] after[j]).username by {
                            assert(after[i].username == game.players[i].username);
                            assert(after[j].username == game.players[j].username);
                        }
                    }
                },
                _ => {},
            }
        },
        _ => {},
    }
}

/// Leaving before the start takes one player off the roster: the one who leaves. Leaving
/// later takes nobody off. In both cases the one message of the step ends the session of
/// the one who leaves, and concerns nobody else.
pub proof fn lemma_leave(game: GameView, username: Seq<char>, other: Seq<char>)
    ensures
        leave_game(game, username).result is Ok,
        leave_game(game, username).published == seq![MessageView::EndSession { username }],
        crate::dto::concerns(MessageView::EndSession { username }, other) <==> other == username,
        game.state is WaitingToStart && find_player(game.players, username) is Some ==> {
            let i = find_player(game.players, username)->Some_0;
            &&& 0 <= i < game.players.len()
            &&& game.players[i].username == username
            &&& leave_game(game, username).game.players == game.players.remove(i)
            &&& leave_game(game, username).game.players.len() == game.players.len() - 1
        },
        !(game.state is WaitingToStart) || find_player(game.players, username) is None
            ==> leave_game(game, username).game == game,
{
    lemma_player_from(game.players, username, 0);
}

/// Creating a game. A board that cannot be played is turned down as missing questions and
/// no session is registered, whatever the code. A board that can be played, under a code
/// that is free, always gives a game: it waits to start on that board, and it is registered
/// under the code beside the sessions that were there. The one way for a playable board to
/// fail is a code that is in use or is no code.
pub proof fn lemma_creation(
    sessions: Map<Seq<char>, EntryView>,
    rounds: Seq<Seq<CategoryView>>,
    code: Seq<char>,
    time: int,
)
    ensures
        !acceptable(rounds) ==> after_create(sessions, rounds, code, time) == (Creation {
            sessions,
            result: Err(GameError::MissingQuestions),
        }),
        acceptable(rounds) && is_code(code) && !sessions.contains_key(code) ==> {
            let made = after_create(sessions, rounds, code, time);
            &&& made.result is Ok
            &&& made.result->Ok_0.state is WaitingToStart
            &&& made.result->Ok_0.rounds == rounds
            &&& made.result->Ok_0.id == code
            &&& made.result->Ok_0.wf()
            &&& made.sessions.contains_key(code)
            &&& made.sessions[code].game == made.result->Ok_0
            &&& forall|other: Seq<char>|
                other != code ==> (made.sessions.contains_key(other) <==> sessions.contains_key(
                    other,
                )) && (sessions.contains_key(other) ==> made.sessions[other] == sessions[other])
        },
        acceptable(rounds) && (!is_code(code) || sessions.contains_key(code)) ==> after_create(
            sessions,
            rounds,
            code,
            time,
        ) == (Creation { sessions, result: Err(GameError::FailedToCreateGame) }),
{
}

/// The question that the phase of a game carries, where it carries one.
pub open spec fn question_in_play(state: GameStateView) -> Option<QuestionView> {
    match state {
        GameStateView::ReadQuestion { question } => Some(question),
        GameStateView::WaitingForAnswer { question } => Some(question),
        GameStateView::CheckAnswer { question, .. } => Some(question),
        _ => None,
    }
}

/// A game can be played on: it is well formed; until it is finished, the current round and
/// every round after it hold a question that is still open; and the question in play, where
/// there is one, is among the open questions of the current round.
pub open spec fn playable(game: GameView) -> bool {
    &&& game.wf()
    &&& !(game.state is Finished) ==> forall|r: int|
        game.current_round <= r < game.rounds.len() ==> !round_done(#[trigger] game.rounds[r])
    &&& question_in_play(game.state) matches Some(question) ==> find_open_question(
        game.rounds[game.current_round],
        question.question_id,
    ) is Some
}

/// A game created on a playable board whose every round holds an open question can be
/// played on.
pub proof fn lemma_new_game_is_playable(rounds: Seq<Seq<CategoryView>>, code: Seq<char>, time: int)
    requires
        acceptable(rounds),
        forall|r: int| 0 <= r < rounds.len() ==> !round_done(#[trigger] rounds[r]),
    ensures
        playable(crate::registry::new_game(rounds, code, time)),
{
}

/// Closing a question whose id is that of an open question of the current round: the
/// question that is closed stands in the current round or before it, so that the rounds to
/// come are untouched, and the game either finishes or waits for a pick in a round that
/// holds an open question.
pub proof fn lemma_closing_keeps_playable(game: GameView, question_id: Seq<char>)
    requires
        game.wf(),
        forall|r: int|
            game.current_round <= r < game.rounds.len() ==> !round_done(#[trigger] game.rounds[r]),
        find_open_question(game.rounds[game.current_round], question_id) is Some,
    ensures
        mark_question_answered(game, question_id).result is Ok,
        ({
            let after = mark_question_answered(game, question_id).game;
            &&& after.wf()
            &&& after.state is Finished || after.state is PickAQuestion
            &&& !(after.state is Finished) ==> forall|r: int|
                after.current_round <= r < after.rounds.len() ==> !round_done(
                    #[trigger] after.rounds[r],
                )
        }),
{
    let current = game.current_round;
    lemma_category_from(game.rounds[current], question_id, true, 0);
    let (c, q) = find_open_question(game.rounds[current], question_id)->Some_0;
    assert(wanted(game.rounds[current][c].questions[q], question_id, false));
    lemma_round_from(game.rounds, question_id, false, 0);
    assert(category_from(game.rounds[current], question_id, false, 0) is Some) by {
        lemma_category_from(game.rounds[current], question_id, false, 0);
        if category_from(game.rounds[current], question_id, false, 0) is None {
            assert(question_from(game.rounds[current][c].questions, question_id, false, 0) is None);
            lemma_question_from(game.rounds[current][c].questions, question_id, false, 0);
        }
    }
    let place = find_question(game.rounds, question_id)->Some_0;
    assert(place.round <= current);
    lemma_closing_keeps_well_formed(game, question_id);
    lemma_closing_keeps_rounds_done(game.rounds, place);
    let after = mark_question_answered(game, question_id).game;
    assert forall|r: int| current < r < after.rounds.len() implies !round_done(
        #[trigger] after.rounds[r],
    ) by {
        assert(after.rounds[r] == game.rounds[r]);
        assert(!round_done(game.rounds[r]));
    }
}

/// Whatever is asked of a game that can be played on, it can be played on afterwards. In
/// particular, until the game is finished its current round holds an open question.
pub proof fn lemma_handling_keeps_playable(
    game: GameView,
    username: Seq<char>,
    request: RequestView,
    time: int,
)
    requires
        playable(game),
    ensures
        playable(handle(game, username, request, time).game),
{
    lemma_handling_keeps_well_formed(game, username, request, time);
    match request {
        RequestView::PickQuestion { question_id } => {
            lemma_category_from(game.rounds[game.current_round], question_id, true, 0);
        },
        RequestView::ConfirmAnswer { is_correct } => {
            match game.state {
                GameStateView::CheckAnswer { question, player } => {
                    match find_player(game.players, player.username) {
                        Some(i) => {
                            if is_correct {
                                let rewarded = GameView {
                                    players: crate::rules::with_score_change(
                                        game.players,
                                        i,
                                        question.value,
                                    ),
                                    last_winner: player.username,
                                    ..game
                                };
                                lemma_closing_keeps_playable(rewarded, question.question_id);
                            }
                        },
                        None => {},
                    }
                },
                _ => {},
            }
        },
        RequestView::EndQuestion => {
            match game.state {
                GameStateView::WaitingForAnswer { question } => {
                    lemma_closing_keeps_playable(game, question.question_id);
                },
                _ => {},
            }
        },
        _ => {},
    }
}

/// Whoever joins a game that can be played on, it can be played on afterwards.
pub proof fn lemma_joining_keeps_playable(game: GameView, username: Seq<char>, role: PlayerRole)
    requires
        playable(game),
    ensures
        playable(join(game, username, role).game),
{
}

} // verus!
