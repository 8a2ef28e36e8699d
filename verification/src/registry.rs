//! The registry of running games: one session under each game code.
//!
//! A registry is owned by whoever uses it: every operation has the whole registry to itself
//! for as long as it runs, and is stated as a function from the sessions before it to the
//! sessions after it.

use vstd::prelude::*;
use vstd::string::StrSliceExecFns;
use crate::dto::{
    overview_of, CreateGameRequest, GameMessage, MessageView, RequestView, StatsResponse,
    UpdateGameRequest,
};
use crate::error::GameError;
use crate::models::{
    Category, CategoryView, Game, GameLog, GameLogView, GameState, GameStateView, GameView,
    PlayerRole, QuestionView,
};
use crate::rules;
use crate::session::{after_join, after_request, stale, EntryView, GameEntry};
use crate::util::{get_time, is_upper_letter, push_char, to_upper, upper_text, char_count};

verus! {

/// `dashmap::DashMap`, a hash map. Nothing is known of what is inside: see [`sessions`].
#[verifier::external_type_specification]
#[verifier::external_body]
#[verifier::reject_recursive_types(K)]
#[verifier::reject_recursive_types(V)]
#[verifier::reject_recursive_types(S)]
pub struct ExDashMap<K, V, S>(dashmap::DashMap<K, V, S>);

/// The sessions that a map holds, each under its game code. What `dashmap` does to a map is
/// stated over this name, and believed: the map itself is not looked into.
pub uninterp spec fn sessions(map: dashmap::DashMap<String, GameEntry>) -> Map<Seq<char>, EntryView>;

/// No sessions at all.
pub open spec fn no_sessions() -> Map<Seq<char>, EntryView> {
    Map::empty()
}

/// `dashmap::DashMap::new`: a map that holds nothing.
#[verifier::external_body]
fn registry_new() -> (fresh: dashmap::DashMap<String, GameEntry>)
    ensures
        sessions(fresh) == no_sessions(),
{
    dashmap::DashMap::new()
}

/// `dashmap::DashMap::insert`: the value is put under the key, in place of what was there;
/// what was there is handed back. The call is taken to return: with the map to itself no
/// lock is contended, and hashing a text does not panic.
#[verifier::external_body]
fn registry_insert(map: &mut dashmap::DashMap<String, GameEntry>, key: String, value: GameEntry) -> (prior:
    Option<GameEntry>)
    ensures
        sessions(*final(map)) == sessions(*old(map)).insert(key@, value@),
        match prior {
            Some(entry) => sessions(*old(map)).contains_key(key@) && entry@ == sessions(
                *old(map),
            )[key@],
            None => !sessions(*old(map)).contains_key(key@),
        },
    no_unwind
{
    map.insert(key, value)
}

/// `dashmap::DashMap::remove`: what is under the key leaves the map and is handed back;
/// a map without the key stays as it is. The call is taken to return, as for an insertion.
#[verifier::external_body]
fn registry_remove(map: &mut dashmap::DashMap<String, GameEntry>, key: &String) -> (taken: Option<
    GameEntry,
>)
    ensures
        sessions(*final(map)) == sessions(*old(map)).remove(key@),
        match taken {
            Some(entry) => sessions(*old(map)).contains_key(key@) && entry@ == sessions(
                *old(map),
            )[key@],
            None => !sessions(*old(map)).contains_key(key@),
        },
    no_unwind
{
    map.remove(key).map(|pair| pair.1)
}

/// `dashmap::DashMap::contains_key`: whether anything is under the key.
#[verifier::external_body]
fn registry_contains(map: &dashmap::DashMap<String, GameEntry>, key: &String) -> (present: bool)
    ensures
        present == sessions(*map).contains_key(key@),
{
    map.contains_key(key)
}

/// `dashmap::DashMap::len`: how many keys the map holds.
#[verifier::external_body]
fn registry_len(map: &dashmap::DashMap<String, GameEntry>) -> (count: usize)
    ensures
        count == sessions(*map).len(),
{
    map.len()
}

/// `dashmap::DashMap::get`, read at once: a copy of the game of the session under the key,
/// and none where nothing is under the key.
#[verifier::external_body]
fn registry_game(map: &dashmap::DashMap<String, GameEntry>, key: &String) -> (found: Option<Game>)
    ensures
        match found {
            Some(game) => sessions(*map).contains_key(key@) && game@ == sessions(*map)[key@].game,
            None => !sessions(*map).contains_key(key@),
        },
{
    map.get(key).map(|entry| entry.value().game.clone())
}

/// `dashmap::DashMap::iter`, walked to its end: every key of the map with the time at which
/// its session was last used. Each key of the map is listed; in which order is left open.
#[verifier::external_body]
fn registry_activity(map: &dashmap::DashMap<String, GameEntry>) -> (listing: Vec<(String, u128)>)
    ensures
        forall|i: int|
            0 <= i < listing.len() ==> sessions(*map).contains_key((#[trigger] listing[i]).0@)
                && sessions(*map)[listing[i].0@].last_updated == listing[i].1,
        forall|code: Seq<char>| #[trigger]
            sessions(*map).contains_key(code) ==> exists|i: int|
                0 <= i < listing.len() && (#[trigger] listing[i]).0@ == code,
{
    map.iter().map(|entry| (entry.key().clone(), entry.value().last_updated)).collect()
}

/// The fewest letters of a game code.
pub const MIN_CODE_LENGTH: usize = 4;

/// The most letters of a game code.
pub const MAX_CODE_LENGTH: usize = 6;

/// Whether a text may serve as a game code: four to six upper-case letters.
pub open spec fn is_code(code: Seq<char>) -> bool {
    &&& MIN_CODE_LENGTH <= code.len() <= MAX_CODE_LENGTH
    &&& forall|i: int| 0 <= i < code.len() ==> is_upper_letter(#[trigger] code[i])
}

/// A question can be asked: it has text and an answer.
pub open spec fn question_ok(question: QuestionView) -> bool {
    question.correct_answer.len() > 0 && question.detail.len() > 0
}

/// A category can be played: it has a question, and each of its questions can be asked.
pub open spec fn category_ok(category: CategoryView) -> bool {
    &&& category.questions.len() > 0
    &&& forall|q: int| 0 <= q < category.questions.len() ==> question_ok(#[trigger] category.questions[q])
}

/// A round can be played: it has a category, and each of its categories can be played.
pub open spec fn round_ok(round: Seq<CategoryView>) -> bool {
    &&& round.len() > 0
    &&& forall|c: int| 0 <= c < round.len() ==> category_ok(#[trigger] round[c])
}

/// A board can be played: it has a round, and each of its rounds can be played.
pub open spec fn acceptable(rounds: Seq<Seq<CategoryView>>) -> bool {
    &&& rounds.len() > 0
    &&& forall|r: int| 0 <= r < rounds.len() ==> round_ok(#[trigger] rounds[r])
}

/// The game that is created on a board under a code at a time: nobody has joined, nobody
/// has won, the first round is current, and the history holds the creation.
pub open spec fn new_game(rounds: Seq<Seq<CategoryView>>, code: Seq<char>, time: int) -> GameView {
    GameView {
        id: code,
        players: Seq::empty(),
        last_winner: Seq::empty(),
        rounds,
        current_round: 0,
        state: GameStateView::WaitingToStart,
        log: seq![GameLogView::GameCreated { time }],
    }
}

/// The session of a game that has just been created.
pub open spec fn new_session(rounds: Seq<Seq<CategoryView>>, code: Seq<char>, time: int) -> EntryView {
    EntryView { game: new_game(rounds, code, time), last_updated: time, published: Seq::empty() }
}

/// Whether a category can be played.
fn category_is_ok(category: &Category) -> (ok: bool)
    ensures
        ok == category_ok(category@),
{
    if category.questions.len() == 0 {
        return false;
    }
    let mut q: usize = 0;
    while q < category.questions.len()
        invariant
            q <= category.questions.len(),
            forall|i: int| 0 <= i < q ==> question_ok(#[trigger] category@.questions[i]),
        decreases category.questions.len() - q,
    {
        let question = &category.questions[q];
        assert(category@.questions[q as int] == question@);
        if question.correct_answer.as_str().is_empty() || question.detail.as_str().is_empty() {
            assert(!question_ok(category@.questions[q as int]));
            return false;
        }
        q += 1;
    }
    true
}

/// Whether a round can be played.
fn round_is_ok(round: &Vec<Category>) -> (ok: bool)
    ensures
        ok == round_ok(round.deep_view()),
{
    if round.len() == 0 {
        return false;
    }
    let mut c: usize = 0;
    while c < round.len()
        invariant
            c <= round.len(),
            forall|i: int| 0 <= i < c ==> category_ok(#[trigger] round.deep_view()[i]),
        decreases round.len() - c,
    {
        if !category_is_ok(&round[c]) {
            assert(!category_ok(round.deep_view()[c as int]));
            return false;
        }
        c += 1;
    }
    true
}

impl CreateGameRequest {
    /// Whether the board of the request can be played: see [`acceptable`].
    pub fn is_acceptable(&self) -> (ok: bool)
        ensures
            ok == acceptable(self@),
    {
        if self.rounds.len() == 0 {
            return false;
        }
        let mut r: usize = 0;
        while r < self.rounds.len()
            invariant
                r <= self.rounds.len(),
                forall|i: int| 0 <= i < r ==> round_ok(#[trigger] self.rounds.deep_view()[i]),
            decreases self.rounds.len() - r,
        {
            if !round_is_ok(&self.rounds[r]) {
                assert(!round_ok(self.rounds.deep_view()[r as int]));
                return false;
            }
            r += 1;
        }
        true
    }

    /// The game that is created on the board of the request: see [`new_game`].
    pub fn into_game(self, code: String, time: u128) -> (game: Game)
        ensures
            game@ == new_game(self@, code@, time as int),
    {
        let mut log: Vec<GameLog> = Vec::new();
        log.push(GameLog::GameCreated { time });
        let players = Vec::new();
        let game = Game {
            id: code,
            current_round: 0,
            last_winner: String::new(),
            players,
            rounds: self.rounds,
            state: GameState::WaitingToStart,
            log,
        };
        assert(game@.log =~= seq![GameLogView::GameCreated { time: time as int }]);
        assert(game@.players =~= Seq::empty());
        game
    }
}

/// Whether a text may serve as a game code: see [`is_code`].
pub fn check_code(code: &String) -> (ok: bool)
    ensures
        ok == is_code(code@),
{
    let length = char_count(code);
    if length < MIN_CODE_LENGTH || length > MAX_CODE_LENGTH {
        return false;
    }
    let mut i: usize = 0;
    while i < length
        invariant
            i <= length,
            length == code@.len(),
            forall|j: int| 0 <= j < i ==> is_upper_letter(#[trigger] code@[j]),
        decreases length - i,
    {
        let c = code.as_str().get_char(i);
        if c < 'A' || c > 'Z' {
            assert(!is_upper_letter(code@[i as int]));
            return false;
        }
        i += 1;
    }
    true
}

/// How many letters a drawn code has.
pub const DRAWN_CODE_LENGTH: usize = 4;

/// `rand::rngs::ThreadRng`, a random number generator. Nothing is known of what is inside.
#[verifier::external_type_specification]
#[verifier::external_body]
pub struct ExThreadRng(rand::rngs::ThreadRng);

/// `rand::thread_rng`: the random number generator of the running thread. Nothing is
/// claimed of it. The call panics where the system has no randomness to seed it with.
#[verifier::external_body]
fn thread_generator() -> rand::rngs::ThreadRng {
    rand::thread_rng()
}

/// `rand::seq::SliceRandom::choose`: one of the letters, whichever chance picks, and none
/// only where there are no letters.
#[verifier::external_body]
fn pick(letters: &Vec<char>, generator: &mut rand::rngs::ThreadRng) -> (picked: Option<char>)
    ensures
        picked is None <==> letters.len() == 0,
        picked matches Some(letter) ==> letters@.contains(letter),
{
    rand::seq::SliceRandom::choose(letters.as_slice(), generator).copied()
}

/// Draws a game code at random: [`DRAWN_CODE_LENGTH`] upper-case letters.
pub fn draw_code() -> (code: String)
    ensures
        code@.len() == DRAWN_CODE_LENGTH,
        is_code(code@),
{
    let letters: Vec<char> = vec![
        'A', 'B', 'C', 'D', 'E', 'F', 'G', 'H', 'I', 'J', 'K', 'L', 'M',
        'N', 'O', 'P', 'Q', 'R', 'S', 'T', 'U', 'V', 'W', 'X', 'Y', 'Z',
    ];
    assert(forall|i: int| 0 <= i < letters.len() ==> is_upper_letter(#[trigger] letters[i]));
    let mut generator = thread_generator();
    let mut code = String::new();
    let mut i: usize = 0;
    while i < DRAWN_CODE_LENGTH
        invariant
            i <= DRAWN_CODE_LENGTH,
            code@.len() == i,
            forall|j: int| 0 <= j < i ==> is_upper_letter(#[trigger] code@[j]),
            forall|j: int| 0 <= j < letters.len() ==> is_upper_letter(#[trigger] letters[j]),
        decreases DRAWN_CODE_LENGTH - i,
    {
        let letter = match pick(&letters, &mut generator) {
            Some(letter) => letter,
            None => 'A',
        };
        push_char(&mut code, letter);
        i += 1;
    }
    code
}

/// What a registry keeps true of its sessions: there are finitely many; each goes by a
/// proper code, which is also the code that its game carries; each game is well formed;
/// and on each roster no name occurs twice and no name is too long.
pub open spec fn orderly(sessions: Map<Seq<char>, EntryView>) -> bool {
    &&& sessions.dom().finite()
    &&& forall|code: Seq<char>| #[trigger]
        sessions.contains_key(code) ==> is_code(code) && sessions[code].game.id == code
            && sessions[code].game.wf() && rules::roster_ok(sessions[code].game.players)
}

/// What comes of a request to create a game.
pub struct Creation {
    pub sessions: Map<Seq<char>, EntryView>,
    pub result: Result<GameView, GameError>,
}

/// Creating a game on a board, under a code, at a time. A board that cannot be played is
/// turned down first. Then a text that is no code, and a code that is in use, fail the
/// creation. In both cases no session is registered. Otherwise the new game is registered
/// under the code, waiting to start.
pub open spec fn after_create(
    sessions: Map<Seq<char>, EntryView>,
    rounds: Seq<Seq<CategoryView>>,
    code: Seq<char>,
    time: int,
) -> Creation {
    if !acceptable(rounds) {
        Creation { sessions, result: Err(GameError::MissingQuestions) }
    } else if !is_code(code) || sessions.contains_key(code) {
        Creation { sessions, result: Err(GameError::FailedToCreateGame) }
    } else {
        Creation {
            sessions: sessions.insert(code, new_session(rounds, code, time)),
            result: Ok(new_game(rounds, code, time)),
        }
    }
}

/// The registry of running games.
pub struct AppState {
    games: dashmap::DashMap<String, GameEntry>,
}

impl View for AppState {
    type V = Map<Seq<char>, EntryView>;

    closed spec fn view(&self) -> Map<Seq<char>, EntryView> {
        sessions(self.games)
    }
}

impl AppState {
    #[verifier::type_invariant]
    spec fn kept_orderly(self) -> bool {
        orderly(sessions(self.games))
    }

    /// A registry without sessions.
    pub fn new() -> (state: AppState)
        ensures
            state@ == no_sessions(),
    {
        AppState { games: registry_new() }
    }

    /// Every registry is orderly: see [`orderly`].
    pub fn is_orderly(&self)
        ensures
            orderly(self@),
    {
        proof {
            use_type_invariant(self);
        }
    }

    /// Creates a game on the board of the request, under `code`, at `time`: see
    /// [`after_create`]. Returns a copy of the new game.
    pub fn create_game_with_code(&mut self, request: CreateGameRequest, code: String, time: u128) -> (result:
        Result<Game, GameError>)
        ensures
            final(self)@ == after_create(old(self)@, request@, code@, time as int).sessions,
            match result {
                Ok(game) => after_create(old(self)@, request@, code@, time as int).result == Ok::<
                    GameView,
                    GameError,
                >(game@),
                Err(error) => after_create(old(self)@, request@, code@, time as int).result
                    == Err::<GameView, GameError>(error),
            },
    {
        proof {
            use_type_invariant(&*self);
        }
        if !request.is_acceptable() {
            return Err(GameError::MissingQuestions);
        }
        if !check_code(&code) || registry_contains(&self.games, &code) {
            return Err(GameError::FailedToCreateGame);
        }
        let game = request.into_game(code.clone(), time);
        let copy = game.clone();
        let entry = GameEntry::new(game, time);
        let _ = registry_insert(&mut self.games, code, entry);
        Ok(copy)
    }
}

/// What comes of a request that changes a session: the sessions afterwards and the answer.
pub struct Change {
    pub sessions: Map<Seq<char>, EntryView>,
    pub result: Result<(), GameError>,
}

/// Joining a game at a time. A code that is too long names no game; then a username that
/// is too long is turned down; then the code, in upper case, has to name a session; then
/// the rules of that game decide: see [`after_join`].
pub open spec fn after_join_game(
    sessions: Map<Seq<char>, EntryView>,
    game_id: Seq<char>,
    username: Seq<char>,
    role: PlayerRole,
    time: int,
) -> Change {
    let code = upper_text(game_id);
    if game_id.len() > MAX_CODE_LENGTH {
        Change { sessions, result: Err(GameError::GameNotFound) }
    } else if username.len() > rules::MAX_USERNAME_LENGTH {
        Change { sessions, result: Err(GameError::UsernameTooLong) }
    } else if !sessions.contains_key(code) {
        Change { sessions, result: Err(GameError::GameNotFound) }
    } else {
        Change {
            sessions: sessions.insert(code, after_join(sessions[code], username, role, time)),
            result: rules::join(sessions[code].game, username, role).result,
        }
    }
}

/// Handling a request in the session that the code, in upper case, names: see
/// [`after_request`]. Where it names none, nothing changes.
pub open spec fn after_action(
    sessions: Map<Seq<char>, EntryView>,
    game_id: Seq<char>,
    username: Seq<char>,
    request: RequestView,
    time: int,
) -> Change {
    let code = upper_text(game_id);
    if !sessions.contains_key(code) {
        Change { sessions, result: Err(GameError::GameNotFound) }
    } else {
        Change {
            sessions: sessions.insert(code, after_request(sessions[code], username, request, time)),
            result: Ok(()),
        }
    }
}

/// Whether handling the request in the session that the code, in upper case, names keeps
/// every score within the machine's integers. Where the code names no session, nothing is
/// handled and nothing can go out of range.
pub open spec fn action_in_range(
    sessions: Map<Seq<char>, EntryView>,
    game_id: Seq<char>,
    request: RequestView,
) -> bool {
    sessions.contains_key(upper_text(game_id)) ==> rules::request_fits(
        sessions[upper_text(game_id)].game,
        request,
    )
}

/// The sessions that are not stale at `now`.
pub open spec fn without_stale(sessions: Map<Seq<char>, EntryView>, now: int) -> Map<
    Seq<char>,
    EntryView,
> {
    Map::new(
        |code: Seq<char>| sessions.contains_key(code) && !stale(sessions[code].last_updated, now),
        |code: Seq<char>| sessions[code],
    )
}

impl AppState {
    /// Creates a game on the board of the request, under a code drawn at random and at the
    /// time that the clock shows. A board that cannot be played is turned down with nothing
    /// drawn. A drawn code that is in use fails the creation: there is no second draw.
    pub fn create_game(&mut self, request: CreateGameRequest) -> (result: Result<Game, GameError>)
        ensures
            match result {
                Ok(game) => {
                    let time = final(self)@[game@.id].last_updated;
                    &&& final(self)@ == after_create(old(self)@, request@, game@.id, time).sessions
                    &&& after_create(old(self)@, request@, game@.id, time).result == Ok::<
                        GameView,
                        GameError,
                    >(game@)
                },
                Err(error) => {
                    &&& final(self)@ == old(self)@
                    &&& !acceptable(request@) ==> error == GameError::MissingQuestions
                    &&& acceptable(request@) ==> error == GameError::FailedToCreateGame
                        && exists|code: Seq<char>|
                        is_code(code) && #[trigger] old(self)@.contains_key(code)
                },
            },
    {
        if !request.is_acceptable() {
            return Err(GameError::MissingQuestions);
        }
        let code = draw_code();
        let time = get_time();
        let ghost drawn = code@;
        let result = self.create_game_with_code(request, code, time);
        proof {
            if result is Err {
                assert(old(self)@.contains_key(drawn));
            }
        }
        result
    }

    /// Lets `username` join the game that `game_id` names, at the time that the clock
    /// shows: see [`after_join_game`].
    pub fn join_game(&mut self, game_id: String, username: String, role: PlayerRole) -> (result: Result<
        (),
        GameError,
    >)
        ensures
            final(self)@ == after_join_game(
                old(self)@,
                game_id@,
                username@,
                role,
                final(self)@[upper_text(game_id@)].last_updated,
            ).sessions,
            result == after_join_game(
                old(self)@,
                game_id@,
                username@,
                role,
                final(self)@[upper_text(game_id@)].last_updated,
            ).result,
    {
        proof {
            use_type_invariant(&*self);
        }
        if char_count(&game_id) > MAX_CODE_LENGTH {
            return Err(GameError::GameNotFound);
        }
        if char_count(&username) > rules::MAX_USERNAME_LENGTH {
            return Err(GameError::UsernameTooLong);
        }
        let code = to_upper(&game_id);
        let mut entry = match registry_remove(&mut self.games, &code) {
            Some(entry) => entry,
            None => {
                assert(sessions(self.games) =~= old(self)@);
                return Err(GameError::GameNotFound);
            },
        };
        let now = get_time();
        proof {
            crate::laws::lemma_joining_keeps_well_formed(entry@.game, username@, role);
            crate::laws::lemma_joining_keeps_roster(entry@.game, username@, role);
        }
        let result = entry.join(username, role, now);
        let ghost joined = entry@;
        let _ = registry_insert(&mut self.games, code, entry);
        assert(sessions(self.games) =~= old(self)@.insert(code@, joined));
        result
    }

    /// Whether handling the request keeps every score of the game that `game_id` names
    /// within the machine's integers: see [`action_in_range`]. A judged answer changes a
    /// score; no other request does.
    pub fn action_fits(&self, game_id: &String, request: &UpdateGameRequest) -> (fits: bool)
        ensures
            fits == action_in_range(self@, game_id@, request@),
    {
        match request {
            UpdateGameRequest::ConfirmAnswer { .. } => {
                let code = to_upper(game_id);
                match registry_game(&self.games, &code) {
                    Some(game) => game.request_fits(request),
                    None => true,
                }
            },
            _ => true,
        }
    }

    /// Handles one request from `username` in the game that `game_id` names, at the time
    /// that the clock shows: see [`after_action`]. The request has to keep every score
    /// within the machine's integers; [`AppState::try_handle_action`] asks for nothing.
    pub fn handle_action(&mut self, game_id: String, username: String, request: UpdateGameRequest) -> (result:
        Result<(), GameError>)
        requires
            action_in_range(old(self)@, game_id@, request@),
        ensures
            final(self)@ == after_action(
                old(self)@,
                game_id@,
                username@,
                request@,
                final(self)@[upper_text(game_id@)].last_updated,
            ).sessions,
            result == after_action(
                old(self)@,
                game_id@,
                username@,
                request@,
                final(self)@[upper_text(game_id@)].last_updated,
            ).result,
    {
        proof {
            use_type_invariant(&*self);
        }
        let code = to_upper(&game_id);
        let mut entry = match registry_remove(&mut self.games, &code) {
            Some(entry) => entry,
            None => {
                assert(sessions(self.games) =~= old(self)@);
                return Err(GameError::GameNotFound);
            },
        };
        let ghost before = entry@;
        crate::session::handle_game_request(&mut entry, username, request);
        proof {
            crate::laws::lemma_handling_keeps_well_formed(
                before.game,
                username@,
                request@,
                entry@.last_updated,
            );
            crate::laws::lemma_handling_keeps_roster(
                before.game,
                username@,
                request@,
                entry@.last_updated,
            );
        }
        let ghost handled = entry@;
        let _ = registry_insert(&mut self.games, code, entry);
        assert(sessions(self.games) =~= old(self)@.insert(code@, handled));
        Ok(())
    }

    /// Handles the request as [`AppState::handle_action`] does, where it keeps every score
    /// within the machine's integers. Where it does not, nothing is handled: the sessions
    /// stay as they are and there is no answer.
    pub fn try_handle_action(&mut self, game_id: String, username: String, request: UpdateGameRequest) -> (result:
        Option<Result<(), GameError>>)
        ensures
            match result {
                Some(answer) => {
                    let time = final(self)@[upper_text(game_id@)].last_updated;
                    &&& action_in_range(old(self)@, game_id@, request@)
                    &&& final(self)@ == after_action(
                        old(self)@,
                        game_id@,
                        username@,
                        request@,
                        time,
                    ).sessions
                    &&& answer == after_action(old(self)@, game_id@, username@, request@, time).result
                },
                None => !action_in_range(old(self)@, game_id@, request@) && final(self)@ == old(
                    self,
                )@,
            },
    {
        if self.action_fits(&game_id, &request) {
            Some(self.handle_action(game_id, username, request))
        } else {
            None
        }
    }

    /// A copy of the game that `game_id`, in upper case, names.
    pub fn get_game(&self, game_id: String) -> (result: Result<Game, GameError>)
        ensures
            match result {
                Ok(game) => self@.contains_key(upper_text(game_id@)) && game@ == self@[upper_text(
                    game_id@,
                )].game,
                Err(error) => error == GameError::GameNotFound && !self@.contains_key(
                    upper_text(game_id@),
                ),
            },
    {
        let code = to_upper(&game_id);
        match registry_game(&self.games, &code) {
            Some(game) => Ok(game),
            None => Err(GameError::GameNotFound),
        }
    }

    /// A new observer of the game that `game_id`, in upper case, names: the summary of the
    /// game as it stands, to be shown first, and the receiving end on which everything
    /// published after it arrives. Both are taken in one step, so that nothing published in
    /// between is missed. The sessions stay as they are.
    pub fn subscribe(&mut self, game_id: String) -> (result: Result<
        (GameMessage, tokio::sync::broadcast::Receiver<GameMessage>),
        GameError,
    >)
        ensures
            final(self)@ == old(self)@,
            match result {
                Ok((welcome, _)) => old(self)@.contains_key(upper_text(game_id@)) && welcome@ == (
                MessageView::JoinGame {
                    game: overview_of(old(self)@[upper_text(game_id@)].game),
                }),
                Err(error) => error == GameError::GameNotFound && !old(self)@.contains_key(
                    upper_text(game_id@),
                ),
            },
    {
        proof {
            use_type_invariant(&*self);
        }
        let code = to_upper(&game_id);
        let entry = match registry_remove(&mut self.games, &code) {
            Some(entry) => entry,
            None => {
                assert(sessions(self.games) =~= old(self)@);
                return Err(GameError::GameNotFound);
            },
        };
        let welcome = entry.welcome();
        let receiver = entry.subscribe();
        let _ = registry_insert(&mut self.games, code, entry);
        assert(sessions(self.games) =~= old(self)@);
        Ok((welcome, receiver))
    }

    /// Removes the session under `code`, if there is one.
    pub fn remove(&mut self, code: &String)
        ensures
            final(self)@ == old(self)@.remove(code@),
    {
        proof {
            use_type_invariant(&*self);
        }
        let _ = registry_remove(&mut self.games, code);
    }

    /// How many games are running.
    pub fn stats(&self) -> (stats: StatsResponse)
        ensures
            stats.games_count == self@.len(),
    {
        StatsResponse { games_count: registry_len(&self.games) }
    }
}

/// Whether one of the first `count` lines of a listing names `code` as stale at `now`.
spec fn swept(listing: Seq<(String, u128)>, count: int, code: Seq<char>, now: int) -> bool {
    exists|j: int|
        0 <= j < count && (#[trigger] listing[j]).0@ == code && stale(listing[j].1 as int, now)
}

impl AppState {
    /// Removes every session that is stale at `now`, and no other: see [`without_stale`].
    /// Returns the codes of the removed sessions.
    pub fn remove_stale(&mut self, now: u128) -> (removed: Vec<String>)
        ensures
            final(self)@ == without_stale(old(self)@, now as int),
            forall|i: int|
                0 <= i < removed.len() ==> old(self)@.contains_key((#[trigger] removed[i])@) && stale(
                    old(self)@[removed[i]@].last_updated,
                    now as int,
                ),
            forall|code: Seq<char>|
                #![trigger old(self)@.contains_key(code)]
                old(self)@.contains_key(code) && stale(old(self)@[code].last_updated, now as int)
                    ==> exists|i: int| 0 <= i < removed.len() && (#[trigger] removed[i])@ == code,
    {
        proof {
            use_type_invariant(&*self);
        }
        let ghost before = self@;
        let listing = registry_activity(&self.games);
        let mut removed: Vec<String> = Vec::new();
        let mut i: usize = 0;
        while i < listing.len()
            invariant
                i <= listing.len(),
                forall|j: int|
                    0 <= j < listing.len() ==> before.contains_key((#[trigger] listing[j]).0@)
                        && before[listing[j].0@].last_updated == listing[j].1,
                forall|code: Seq<char>|
                    #![trigger sessions(self.games).contains_key(code)]
                    sessions(self.games).contains_key(code) <==> before.contains_key(code) && !swept(
                        listing@,
                        i as int,
                        code,
                        now as int,
                    ),
                forall|code: Seq<char>|
                    #![trigger sessions(self.games).contains_key(code)]
                    sessions(self.games).contains_key(code) ==> sessions(self.games)[code]
                        == before[code],
                forall|k: int|
                    0 <= k < removed.len() ==> before.contains_key((#[trigger] removed[k])@) && stale(
                        before[removed[k]@].last_updated,
                        now as int,
                    ),
                forall|code: Seq<char>|
                    #![trigger before.contains_key(code)]
                    swept(listing@, i as int, code, now as int) ==> exists|k: int|
                        0 <= k < removed.len() && (#[trigger] removed[k])@ == code,
            decreases listing.len() - i,
        {
            proof {
                use_type_invariant(&*self);
            }
            let ghost kept = sessions(self.games);
            let ghost listed = removed@;
            if crate::session::is_stale(listing[i].1, now) {
                let _ = registry_remove(&mut self.games, &listing[i].0);
                removed.push(listing[i].0.clone());
                assert(removed[removed.len() - 1]@ == listing[i as int].0@);
                assert forall|k: int| 0 <= k < removed.len() implies before.contains_key(
                    (#[trigger] removed[k])@,
                ) && stale(before[removed[k]@].last_updated, now as int) by {
                    if k < listed.len() {
                        assert(removed[k] == listed[k]);
                    }
                }
            }
            assert forall|code: Seq<char>|
                #![trigger sessions(self.games).contains_key(code)]
                sessions(self.games).contains_key(code) <==> before.contains_key(code) && !swept(
                    listing@,
                    i + 1,
                    code,
                    now as int,
                ) by {
                let line = listing@[i as int];
                if swept(listing@, i + 1, code, now as int) {
                    let j = choose|j: int|
                        0 <= j < i + 1 && (#[trigger] listing@[j]).0@ == code && stale(
                            listing@[j].1 as int,
                            now as int,
                        );
                    if j < i {
                        assert(swept(listing@, i as int, code, now as int));
                    }
                } else {
                    if swept(listing@, i as int, code, now as int) {
                        let j = choose|j: int|
                            0 <= j < i && (#[trigger] listing@[j]).0@ == code && stale(
                                listing@[j].1 as int,
                                now as int,
                            );
                        assert(0 <= j < i + 1);
                    }
                    if line.0@ == code && stale(line.1 as int, now as int) {
                        assert(swept(listing@, i + 1, code, now as int));
                    }
                }
                assert(kept.contains_key(code) <==> before.contains_key(code) && !swept(
                    listing@,
                    i as int,
                    code,
                    now as int,
                ));
            }
            assert forall|code: Seq<char>|
                #![trigger before.contains_key(code)]
                swept(listing@, i + 1, code, now as int) implies exists|k: int|
                0 <= k < removed.len() && (#[trigger] removed[k])@ == code by {
                let j = choose|j: int|
                    0 <= j < i + 1 && (#[trigger] listing@[j]).0@ == code && stale(
                        listing@[j].1 as int,
                        now as int,
                    );
                if j < i {
                    assert(swept(listing@, i as int, code, now as int));
                    assert(before.contains_key(code));
                    let k = choose|k: int| 0 <= k < listed.len() && (#[trigger] listed[k])@ == code;
                    assert(removed[k] == listed[k]);
                } else {
                    assert(removed[removed.len() - 1]@ == code);
                }
            }
            i += 1;
        }
        proof {
            assert forall|code: Seq<char>| before.contains_key(code) implies (swept(
                listing@,
                listing.len() as int,
                code,
                now as int,
            ) <==> stale(before[code].last_updated, now as int)) by {
                let j = choose|j: int| 0 <= j < listing.len() && (#[trigger] listing[j]).0@ == code;
                if stale(before[code].last_updated, now as int) {
                    assert(listing@[j].0@ == code && stale(listing@[j].1 as int, now as int));
                }
                if swept(listing@, listing.len() as int, code, now as int) {
                    let k = choose|k: int|
                        0 <= k < listing.len() && (#[trigger] listing@[k]).0@ == code && stale(
                            listing@[k].1 as int,
                            now as int,
                        );
                    assert(before[listing[k].0@].last_updated == listing[k].1);
                }
            }
            assert(sessions(self.games) =~= without_stale(before, now as int));
        }
        removed
    }

    /// Removes every session that is stale at the time that the clock shows: see
    /// [`without_stale`]. Returns the codes of the removed sessions.
    pub fn cleanup_old_games(&mut self) -> (removed: Vec<String>)
        ensures
            exists|now: int| final(self)@ == #[trigger] without_stale(old(self)@, now),
            forall|i: int| 0 <= i < removed.len() ==> old(self)@.contains_key((#[trigger] removed[i])@),
    {
        let now = get_time();
        let removed = self.remove_stale(now);
        assert(self@ == without_stale(old(self)@, now as int));
        removed
    }
}

} // verus!
