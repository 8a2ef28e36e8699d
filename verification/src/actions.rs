//! The handlers of the game: executable code that changes a game in place, each proved to do
//! what the rules say.

use vstd::prelude::*;
use crate::dto::{GameMessage, GameOverview, UpdateGameRequest};
use crate::error::GameError;
use crate::models::{
    Category, Game, GameLog, GameState, GameView, Player, PlayerRole, Question,
};
use crate::rules;
use crate::rules::{
    board_done, category_from, find_player, find_question, player_from, question_at,
    question_from, questions_done, round_done, round_from, with_question, Place,
};

verus! {

/// The index of the first player called `username`.
pub fn player_index(players: &Vec<Player>, username: &String) -> (found: Option<usize>)
    ensures
        found.is_some() == find_player(players.deep_view(), username@).is_some(),
        found matches Some(i) ==> find_player(players.deep_view(), username@) == Some(i as int)
            && i < players.len(),
{
    let ghost roster = players.deep_view();
    let mut i: usize = 0;
    while i < players.len()
        invariant
            i <= players.len(),
            roster == players.deep_view(),
            find_player(roster, username@) == player_from(roster, username@, i as int),
        decreases players.len() - i,
    {
        if players[i].username == *username {
            return Some(i);
        }
        i += 1;
    }
    None
}

/// The index of the first question of a list that a search for `id` stops at.
fn question_index(questions: &Vec<Question>, id: &String, open_only: bool) -> (found: Option<usize>)
    ensures
        found.is_some() == question_from(questions.deep_view(), id@, open_only, 0).is_some(),
        found matches Some(q) ==> question_from(questions.deep_view(), id@, open_only, 0) == Some(
            q as int,
        ) && q < questions.len(),
{
    let ghost list = questions.deep_view();
    let mut q: usize = 0;
    while q < questions.len()
        invariant
            q <= questions.len(),
            list == questions.deep_view(),
            question_from(list, id@, open_only, 0) == question_from(list, id@, open_only, q as int),
        decreases questions.len() - q,
    {
        if questions[q].question_id == *id && (!open_only || !questions[q].answered) {
            return Some(q);
        }
        q += 1;
    }
    None
}

/// The first question of a round that a search for `id` stops at: its category and its
/// index there.
pub fn question_in_round(round: &Vec<Category>, id: &String, open_only: bool) -> (found: Option<
    (usize, usize),
>)
    ensures
        found.is_some() == category_from(round.deep_view(), id@, open_only, 0).is_some(),
        found matches Some((c, q)) ==> category_from(round.deep_view(), id@, open_only, 0) == Some(
            (c as int, q as int),
        ) && c < round.len() && q < round[c as int].questions.len(),
{
    let ghost list = round.deep_view();
    let mut c: usize = 0;
    while c < round.len()
        invariant
            c <= round.len(),
            list == round.deep_view(),
            category_from(list, id@, open_only, 0) == category_from(list, id@, open_only, c as int),
        decreases round.len() - c,
    {
        match question_index(&round[c].questions, id, open_only) {
            Some(q) => {
                return Some((c, q));
            },
            None => {},
        }
        c += 1;
    }
    None
}

/// The first question of the board with this id, answered or not: its round, its category
/// and its index there.
pub fn question_place(rounds: &Vec<Vec<Category>>, id: &String) -> (found: Option<
    (usize, usize, usize),
>)
    ensures
        found.is_some() == find_question(rounds.deep_view(), id@).is_some(),
        found matches Some((r, c, q)) ==> find_question(rounds.deep_view(), id@) == Some(
            Place { round: r as int, category: c as int, question: q as int },
        ) && r < rounds.len() && c < rounds[r as int].len() && q < rounds[r as int][c as int].questions.len(),
{
    let ghost board = rounds.deep_view();
    let mut r: usize = 0;
    while r < rounds.len()
        invariant
            r <= rounds.len(),
            board == rounds.deep_view(),
            find_question(board, id@) == round_from(board, id@, false, r as int),
        decreases rounds.len() - r,
    {
        match question_in_round(&rounds[r], id, false) {
            Some((c, q)) => {
                return Some((r, c, q));
            },
            None => {},
        }
        r += 1;
    }
    None
}

/// Whatever takes the place of the player at `index`, the roster is seen to change there
/// and nowhere else.
proof fn lemma_roster_with_player(before: Vec<Player>, index: int)
    requires
        0 <= index < before.len(),
    ensures
        forall|after: Vec<Player>, player: Player|
            #![trigger after.deep_view(), before@.update(index, player)]
            after@ == before@.update(index, player) ==> after.deep_view()
                == before.deep_view().update(index, player@),
{
    assert forall|after: Vec<Player>, player: Player|
        #![trigger after.deep_view(), before@.update(index, player)]
        after@ == before@.update(index, player) implies after.deep_view()
        == before.deep_view().update(index, player@) by {
        assert(after.deep_view() =~= before.deep_view().update(index, player@));
    }
}

/// The first player called `username`, to read or to change.
pub fn get_player(game: &mut Game, username: String) -> (found: Option<&mut Player>)
    ensures
        match found {
            Some(player) => find_player(old(game)@.players, username@) matches Some(i)
                && player@ == old(game)@.players[i]
                && final(game)@ == (GameView {
                players: old(game)@.players.update(i, final(player)@),
                ..old(game)@
            }),
            None => find_player(old(game)@.players, username@) is None && final(game)@ == old(
                game,
            )@,
        },
{
    match player_index(&game.players, &username) {
        Some(i) => {
            assert(game.players.deep_view()[i as int] == game.players[i as int]@);
            proof {
                lemma_roster_with_player(game.players, i as int);
            }
            Some(&mut game.players[i])
        },
        None => None,
    }
}

/// `after` is `before` but for the question at one place, which is `question`.
spec fn differs_in_question(
    before: Vec<Vec<Category>>,
    after: Vec<Vec<Category>>,
    r: int,
    c: int,
    q: int,
    question: Question,
) -> bool {
    &&& after.len() == before.len()
    &&& forall|i: int| 0 <= i < before.len() && i != r ==> after[i] == before[i]
    &&& after[r].len() == before[r].len()
    &&& forall|i: int| 0 <= i < before[r].len() && i != c ==> after[r][i] == before[r][i]
    &&& after[r][c].category_id == before[r][c].category_id
    &&& after[r][c].name == before[r][c].name
    &&& after[r][c].questions.len() == before[r][c].questions.len()
    &&& forall|i: int|
        0 <= i < before[r][c].questions.len() && i != q ==> after[r][c].questions[i]
            == before[r][c].questions[i]
    &&& after[r][c].questions[q] == question
}

/// Whatever takes the place of the question at a place of the board, the board is seen to
/// change there and nowhere else.
proof fn lemma_board_with_question(before: Vec<Vec<Category>>, r: int, c: int, q: int)
    requires
        0 <= r < before.len(),
        0 <= c < before[r].len(),
        0 <= q < before[r][c].questions.len(),
    ensures
        forall|after: Vec<Vec<Category>>, question: Question|
            #![trigger after.deep_view(), question@]
            differs_in_question(before, after, r, c, q, question) ==> after.deep_view()
                == with_question(
                before.deep_view(),
                Place { round: r, category: c, question: q },
                question@,
            ),
{
    assert forall|after: Vec<Vec<Category>>, question: Question|
        #![trigger after.deep_view(), question@]
        differs_in_question(before, after, r, c, q, question) implies after.deep_view()
        == with_question(
        before.deep_view(),
        Place { round: r, category: c, question: q },
        question@,
    ) by {
        let place = Place { round: r, category: c, question: q };
        let expected = with_question(before.deep_view(), place, question@);
        assert(after[r][c].questions.deep_view() =~= before[r][c].questions.deep_view().update(
            q,
            question@,
        ));
        assert(after[r].deep_view() =~= expected[r]) by {
            assert forall|i: int| 0 <= i < after[r].len() implies after[r].deep_view()[i]
                == expected[r][i] by {
                if i != c {
                    assert(after[r][i] == before[r][i]);
                }
            }
        }
        assert(after.deep_view() =~= expected) by {
            assert forall|i: int| 0 <= i < after.len() implies after.deep_view()[i]
                == expected[i] by {
                if i != r {
                    assert(after[i] == before[i]);
                }
            }
        }
    }
}

/// The first question of the board with this id, to read or to change.
pub fn get_question(game: &mut Game, question_id: String) -> (found: Option<&mut Question>)
    ensures
        match found {
            Some(question) => find_question(old(game)@.rounds, question_id@) matches Some(place)
                && question@ == question_at(old(game)@.rounds, place)
                && final(game)@ == (GameView {
                rounds: with_question(old(game)@.rounds, place, final(question)@),
                ..old(game)@
            }),
            None => find_question(old(game)@.rounds, question_id@) is None && final(game)@ == old(
                game,
            )@,
        },
{
    match question_place(&game.rounds, &question_id) {
        Some((r, c, q)) => {
            proof {
                lemma_board_with_question(game.rounds, r as int, c as int, q as int);
            }
            Some(&mut game.rounds[r][c].questions[q])
        },
        None => None,
    }
}

impl Game {
    /// A copy of the first player called `username`.
    pub fn find_player(&self, username: String) -> (found: Option<Player>)
        ensures
            match found {
                Some(player) => find_player(self@.players, username@) matches Some(i) && player@
                    == self@.players[i],
                None => find_player(self@.players, username@) is None,
            },
    {
        match player_index(&self.players, &username) {
            Some(i) => {
                assert(self.players.deep_view()[i as int] == self.players[i as int]@);
                Some(self.players[i].clone())
            },
            None => None,
        }
    }
}

/// Whether every question of the list is answered.
fn all_answered(questions: &Vec<Question>) -> (done: bool)
    ensures
        done == questions_done(questions.deep_view()),
{
    let mut q: usize = 0;
    while q < questions.len()
        invariant
            q <= questions.len(),
            forall|i: int| 0 <= i < q ==> questions.deep_view()[i].answered,
        decreases questions.len() - q,
    {
        if !questions[q].answered {
            assert(!questions.deep_view()[q as int].answered);
            return false;
        }
        q += 1;
    }
    true
}

/// Whether every question of the round is answered.
pub fn round_is_done(round: &Vec<Category>) -> (done: bool)
    ensures
        done == round_done(round.deep_view()),
{
    let mut c: usize = 0;
    while c < round.len()
        invariant
            c <= round.len(),
            forall|i: int| 0 <= i < c ==> questions_done(round.deep_view()[i].questions),
        decreases round.len() - c,
    {
        if !all_answered(&round[c].questions) {
            assert(!questions_done(round.deep_view()[c as int].questions));
            return false;
        }
        c += 1;
    }
    true
}

/// Whether every question of every round is answered.
pub fn board_is_done(rounds: &Vec<Vec<Category>>) -> (done: bool)
    ensures
        done == board_done(rounds.deep_view()),
{
    let mut r: usize = 0;
    while r < rounds.len()
        invariant
            r <= rounds.len(),
            forall|i: int| 0 <= i < r ==> round_done(rounds.deep_view()[i]),
        decreases rounds.len() - r,
    {
        if !round_is_done(&rounds[r]) {
            assert(!round_done(rounds.deep_view()[r as int]));
            return false;
        }
        r += 1;
    }
    true
}

/// A list that has grown by one item is seen to have grown by the view of that item.
proof fn lemma_pushed<T: DeepView>(before: Vec<T>, after: Vec<T>, item: T)
    requires
        after@ == before@.push(item),
    ensures
        after.deep_view() == before.deep_view().push(item.deep_view()),
{
    assert(after.deep_view() =~= before.deep_view().push(item.deep_view()));
}

/// Puts a message into an outbox.
pub fn post(outbox: &mut Vec<GameMessage>, message: GameMessage)
    ensures
        final(outbox).deep_view() == old(outbox).deep_view().push(message@),
{
    let ghost before = *outbox;
    let ghost item = message;
    outbox.push(message);
    proof {
        lemma_pushed(before, *outbox, item);
    }
}

impl Game {
    /// Adds a line to the history.
    fn record(&mut self, entry: GameLog)
        ensures
            final(self)@ == (GameView { log: old(self)@.log.push(entry@), ..old(self)@ }),
    {
        let ghost before = self.log;
        let ghost line = entry;
        self.log.push(entry);
        proof {
            lemma_pushed(before, self.log, line);
        }
    }

    /// Whether the game is well formed: see [`GameView::wf`].
    pub fn is_well_formed(&self) -> (ok: bool)
        ensures
            ok == self@.wf(),
    {
        if self.current_round >= self.rounds.len() {
            return false;
        }
        let mut r: usize = 0;
        while r < self.current_round
            invariant
                r <= self.current_round < self.rounds.len(),
                forall|i: int| 0 <= i < r ==> round_done(self.rounds.deep_view()[i]),
            decreases self.current_round - r,
        {
            if !round_is_done(&self.rounds[r]) {
                assert(!round_done(self.rounds.deep_view()[r as int]));
                return false;
            }
            r += 1;
        }
        true
    }

    /// The host starts the game: see [`rules::start_game`].
    pub fn start_game(&mut self, role: PlayerRole, time: u128) -> (result: Result<(), GameError>)
        ensures
            final(self)@ == rules::start_game(old(self)@, role, time as int).game,
            result == rules::start_game(old(self)@, role, time as int).result,
    {
        if role != PlayerRole::Host {
            return Err(GameError::InsufficientPermissions);
        }
        match &self.state {
            GameState::WaitingToStart => {},
            _ => {
                return Err(GameError::InvalidGameState);
            },
        }
        self.state = GameState::PickAQuestion;
        self.record(GameLog::GameStarted { time });
        Ok(())
    }

    /// A participant leaves: see [`rules::leave_game`]. The message that ends their
    /// connection is put into `outbox`.
    pub fn leave_game(&mut self, username: String, outbox: &mut Vec<GameMessage>) -> (result: Result<
        (),
        GameError,
    >)
        ensures
            final(self)@ == rules::leave_game(old(self)@, username@).game,
            result == rules::leave_game(old(self)@, username@).result,
            final(outbox).deep_view() == old(outbox).deep_view() + rules::leave_game(
                old(self)@,
                username@,
            ).published,
    {
        post(outbox, GameMessage::EndSession { username: username.clone() });
        match &self.state {
            GameState::WaitingToStart => {
                match player_index(&self.players, &username) {
                    Some(index) => {
                        self.players.remove(index);
                        assert(self.players.deep_view() =~= old(self).players.deep_view().remove(
                            index as int,
                        ));
                    },
                    None => {},
                }
            },
            _ => {},
        }
        Ok(())
    }

    /// A question of the current round is picked: see [`rules::pick_question`].
    pub fn pick_question(&mut self, question_id: String, time: u128) -> (result: Result<
        (),
        GameError,
    >)
        requires
            old(self)@.wf(),
        ensures
            final(self)@ == rules::pick_question(old(self)@, question_id@, time as int).game,
            result == rules::pick_question(old(self)@, question_id@, time as int).result,
    {
        match &self.state {
            GameState::PickAQuestion => {},
            _ => {
                return Err(GameError::InvalidGameState);
            },
        }
        let round = &self.rounds[self.current_round];
        match question_in_round(round, &question_id, true) {
            Some((c, q)) => {
                let question = round[c].questions[q].clone();
                let picked = question.question_id.clone();
                self.state = GameState::ReadQuestion { question };
                self.record(GameLog::QuestionPicked { time, question_id: picked });
                Ok(())
            },
            None => Err(GameError::QuestionNotFound),
        }
    }

    /// The host has read the question out: see [`rules::allow_answering`].
    pub fn finish_reading_question(&mut self, role: PlayerRole) -> (result: Result<(), GameError>)
        ensures
            final(self)@ == rules::allow_answering(old(self)@, role).game,
            result == rules::allow_answering(old(self)@, role).result,
    {
        if role != PlayerRole::Host {
            return Err(GameError::InsufficientPermissions);
        }
        match &self.state {
            GameState::ReadQuestion { question } => {
                self.state = GameState::WaitingForAnswer { question: question.clone() };
                Ok(())
            },
            _ => Err(GameError::InvalidGameState),
        }
    }

    /// A participant buzzes in: see [`rules::answer_question`].
    pub fn attempt_to_answer_question(&mut self, username: String, time: u128) -> (result: Result<
        (),
        GameError,
    >)
        ensures
            final(self)@ == rules::answer_question(old(self)@, username@, time as int).game,
            result == rules::answer_question(old(self)@, username@, time as int).result,
    {
        match &self.state {
            GameState::WaitingForAnswer { question } => {
                let player = match self.find_player(username.clone()) {
                    Some(player) => player,
                    None => {
                        return Err(GameError::PlayerNotFound);
                    },
                };
                self.state = GameState::CheckAnswer { question: question.clone(), player };
                self.record(GameLog::PlayerBuzzedIn { time, username });
                Ok(())
            },
            GameState::CheckAnswer { .. } => Err(GameError::AlreadyAnswered),
            _ => Err(GameError::InvalidGameState),
        }
    }
}

/// Closes a question: see [`rules::mark_question_answered`]. The message that shows the
/// closed question is put into `outbox`.
pub fn mark_question_answered(
    game: &mut Game,
    question_id: String,
    outbox: &mut Vec<GameMessage>,
) -> (result: Result<(), GameError>)
    requires
        old(game)@.wf(),
    ensures
        final(game)@ == rules::mark_question_answered(old(game)@, question_id@).game,
        result == rules::mark_question_answered(old(game)@, question_id@).result,
        final(outbox).deep_view() == old(outbox).deep_view() + rules::mark_question_answered(
            old(game)@,
            question_id@,
        ).published,
{
    let ghost sent = outbox.deep_view();
    proof {
        rules::lemma_round_from(game@.rounds, question_id@, false, 0);
    }
    let question = match get_question(game, question_id) {
        Some(question) => question,
        None => {
            assert(outbox.deep_view() =~= sent + Seq::empty());
            return Err(GameError::QuestionNotFound);
        },
    };
    question.answered = true;
    post(outbox, GameMessage::QuestionUpdate { question: question.clone() });
    assert(outbox.deep_view() =~= sent + rules::mark_question_answered(
        old(game)@,
        question_id@,
    ).published);
    assert(game.rounds.deep_view().len() == game.rounds.len());
    game.state = GameState::PickAQuestion;
    if board_is_done(&game.rounds) {
        game.state = GameState::Finished;
        return Ok(());
    }
    if round_is_done(&game.rounds[game.current_round]) {
        game.current_round += 1;
    }
    Ok(())
}

impl Game {
    /// The answer of the player who buzzed in is judged: see [`rules::confirm_answer`].
    /// A message that shows the closed question is put into `outbox`.
    pub fn confirm_answer(&mut self, is_correct: bool, time: u128, outbox: &mut Vec<GameMessage>) -> (result:
        Result<(), GameError>)
        requires
            old(self)@.wf(),
            rules::score_fits(old(self)@, is_correct),
        ensures
            final(self)@ == rules::confirm_answer(old(self)@, is_correct, time as int).game,
            result == rules::confirm_answer(old(self)@, is_correct, time as int).result,
            final(outbox).deep_view() == old(outbox).deep_view() + rules::confirm_answer(
                old(self)@,
                is_correct,
                time as int,
            ).published,
    {
        let (question, player) = match &self.state {
            GameState::CheckAnswer { question, player } => (question.clone(), player.clone()),
            _ => {
                return Err(GameError::InvalidGameState);
            },
        };
        let index = match player_index(&self.players, &player.username) {
            Some(index) => index,
            None => {
                return Err(GameError::PlayerNotFound);
            },
        };
        assert(self.players.deep_view()[index as int] == self.players[index as int]@);
        if is_correct {
            if question_place(&self.rounds, &question.question_id).is_none() {
                return Err(GameError::QuestionNotFound);
            }
            self.players[index].score = self.players[index].score + question.value;
            assert(self.players.deep_view() =~= rules::with_score_change(
                old(self)@.players,
                index as int,
                question@.value,
            ));
            self.last_winner = player.username.clone();
            let _ = mark_question_answered(self, question.question_id.clone(), outbox);
        } else {
            self.players[index].score = self.players[index].score - question.value;
            assert(self.players.deep_view() =~= rules::with_score_change(
                old(self)@.players,
                index as int,
                -question@.value,
            ));
            self.state = GameState::WaitingForAnswer { question: question.clone() };
        }
        self.record(
            GameLog::AnswerConfirmed {
                time,
                username: player.username,
                is_correct,
                points_change: question.value,
                question_id: question.question_id,
            },
        );
        Ok(())
    }

    /// The host gives up on the question in play: see [`rules::end_question`]. The message
    /// that shows the closed question is put into `outbox`.
    pub fn end_question(&mut self, role: PlayerRole, time: u128, outbox: &mut Vec<GameMessage>) -> (result:
        Result<(), GameError>)
        requires
            old(self)@.wf(),
        ensures
            final(self)@ == rules::end_question(old(self)@, role, time as int).game,
            result == rules::end_question(old(self)@, role, time as int).result,
            final(outbox).deep_view() == old(outbox).deep_view() + rules::end_question(
                old(self)@,
                role,
                time as int,
            ).published,
    {
        if role != PlayerRole::Host {
            return Err(GameError::InsufficientPermissions);
        }
        let question_id = match &self.state {
            GameState::WaitingForAnswer { question } => question.question_id.clone(),
            _ => {
                return Err(GameError::InvalidGameState);
            },
        };
        match mark_question_answered(self, question_id.clone(), outbox) {
            Ok(_) => {},
            Err(error) => {
                return Err(error);
            },
        }
        self.record(GameLog::QuestionPassed { time, question_id });
        Ok(())
    }

    /// A participant joins: see [`rules::join`].
    pub fn join(&mut self, username: String, role: PlayerRole) -> (result: Result<(), GameError>)
        ensures
            final(self)@ == rules::join(old(self)@, username@, role).game,
            result == rules::join(old(self)@, username@, role).result,
    {
        match get_player(self, username.clone()) {
            Some(player) => {
                player.role = role;
                return Ok(());
            },
            None => {},
        }
        if role != PlayerRole::Spectator {
            match &self.state {
                GameState::WaitingToStart => {},
                _ => {
                    return Err(GameError::NewPlayerCannotJoinAfterStart);
                },
            }
        }
        let ghost before = self.players;
        let player = Player { username, role, score: 0 };
        let ghost added = player;
        self.players.push(player);
        proof {
            lemma_pushed(before, self.players, added);
        }
        Ok(())
    }

    /// Handles one request from `username` at `time`: see [`rules::handle`]. Returns, in
    /// the order in which they are to be published, the messages of the handler and then
    /// the summary of the game or, for a refused request, the report to its sender.
    pub fn handle_request(&mut self, username: String, request: UpdateGameRequest, time: u128) -> (published:
        Vec<GameMessage>)
        requires
            old(self)@.wf(),
            rules::request_fits(old(self)@, request@),
        ensures
            final(self)@ == rules::handle(old(self)@, username@, request@, time as int).game,
            published.deep_view() == rules::handle(
                old(self)@,
                username@,
                request@,
                time as int,
            ).published,
    {
        let role = match self.find_player(username.clone()) {
            Some(player) => player.role,
            None => PlayerRole::Contestant,
        };
        let mut outbox: Vec<GameMessage> = Vec::new();
        let result = match request {
            UpdateGameRequest::StartGame => self.start_game(role, time),
            UpdateGameRequest::LeaveGame => self.leave_game(username.clone(), &mut outbox),
            UpdateGameRequest::PickQuestion { question_id } => self.pick_question(question_id, time),
            UpdateGameRequest::AllowAnswering => self.finish_reading_question(role),
            UpdateGameRequest::AnswerQuestion => self.attempt_to_answer_question(
                username.clone(),
                time,
            ),
            UpdateGameRequest::ConfirmAnswer { is_correct } => self.confirm_answer(
                is_correct,
                time,
                &mut outbox,
            ),
            UpdateGameRequest::EndQuestion => self.end_question(role, time, &mut outbox),
        };
        assert(outbox.deep_view() == rules::dispatch(
            old(self)@,
            username@,
            request@,
            time as int,
        ).published);
        match result {
            Ok(_) => post(&mut outbox, GameMessage::GameUpdate { game: GameOverview::of(self) }),
            Err(error) => post(&mut outbox, GameMessage::report(error, username)),
        }
        outbox
    }
}

impl Game {
    /// Whether judging the answer keeps the score of the player who buzzed in within the
    /// machine's integers: see [`rules::score_fits`].
    pub fn score_fits(&self, is_correct: bool) -> (fits: bool)
        ensures
            fits == rules::score_fits(self@, is_correct),
    {
        match &self.state {
            GameState::CheckAnswer { question, player } => {
                match player_index(&self.players, &player.username) {
                    Some(index) => {
                        assert(self.players.deep_view()[index as int] == self.players[index as int]@);
                        let score = self.players[index].score;
                        if is_correct {
                            score.checked_add(question.value).is_some()
                        } else {
                            score.checked_sub(question.value).is_some()
                        }
                    },
                    None => true,
                }
            },
            _ => true,
        }
    }

    /// Whether handling the request keeps every score within the machine's integers: see
    /// [`rules::request_fits`].
    pub fn request_fits(&self, request: &UpdateGameRequest) -> (fits: bool)
        ensures
            fits == rules::request_fits(self@, request@),
    {
        match request {
            UpdateGameRequest::ConfirmAnswer { is_correct } => self.score_fits(*is_correct),
            _ => true,
        }
    }
}

} // verus!
