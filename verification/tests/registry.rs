use quiz_engine::dto::{CreateGameRequest, GameMessage, GameOverview, UpdateGameRequest};
use quiz_engine::error::GameError;
use quiz_engine::models::{Category, Game, GameLog, GameState, Player, PlayerRole, Question};
use quiz_engine::registry::{check_code, draw_code, AppState};
use quiz_engine::session::{handle_game_request, is_stale, GameEntry};
use quiz_engine::util::get_time;
use tokio::sync::broadcast::error::TryRecvError;
use tokio::sync::broadcast::Receiver;

fn question(id: &str, value: isize, answer: &str) -> Question {
    Question {
        question_id: id.to_string(),
        detail: format!("What is {}?", id),
        correct_answer: answer.to_string(),
        value,
        answered: false,
    }
}

fn board() -> Vec<Vec<Category>> {
    vec![vec![Category {
        category_id: "c1".to_string(),
        name: "Capitals".to_string(),
        questions: vec![question("q1", 100, "Paris")],
    }]]
}

fn request() -> CreateGameRequest {
    CreateGameRequest { rounds: board() }
}

fn registry_with(code: &str, time: u128) -> AppState {
    let mut state = AppState::new();
    assert!(state.create_game_with_code(request(), code.to_string(), time).is_ok());
    state
}

fn act(state: &mut AppState, code: &str, username: &str, request: UpdateGameRequest) -> Result<(), GameError> {
    assert!(state.action_fits(&code.to_string(), &request));
    state.handle_action(code.to_string(), username.to_string(), request)
}

fn drain(receiver: &mut Receiver<GameMessage>) -> Vec<GameMessage> {
    let mut seen = Vec::new();
    loop {
        match receiver.try_recv() {
            Ok(message) => seen.push(message),
            Err(TryRecvError::Lagged(_)) => {}
            Err(_) => return seen,
        }
    }
}

fn shown_to(messages: &Vec<GameMessage>, username: &str) -> Vec<GameMessage> {
    messages.iter().filter(|message| message.is_for(&username.to_string())).cloned().collect()
}

#[test]
fn a_new_registry_is_empty() {
    let state = AppState::new();
    assert_eq!(state.stats().games_count, 0);
    assert_eq!(state.get_game("ABCD".to_string()), Err(GameError::GameNotFound));
}

#[test]
fn a_playable_board_gives_a_game_that_waits_to_start() {
    let mut state = AppState::new();
    let game = state.create_game_with_code(request(), "ABCD".to_string(), 42).unwrap();
    assert_eq!(game.id, "ABCD");
    assert_eq!(game.state, GameState::WaitingToStart);
    assert_eq!(game.rounds, board());
    assert_eq!(game.current_round, 0);
    assert!(game.players.is_empty());
    assert_eq!(game.log, vec![GameLog::GameCreated { time: 42 }]);
    assert_eq!(state.stats().games_count, 1);
    assert_eq!(state.get_game("ABCD".to_string()), Ok(game));
}

fn assert_missing_questions(rounds: Vec<Vec<Category>>) {
    let mut state = registry_with("KEEP", 1);
    assert_eq!(
        state.create_game_with_code(CreateGameRequest { rounds: rounds.clone() }, "ABCD".to_string(), 2),
        Err(GameError::MissingQuestions)
    );
    assert_eq!(state.stats().games_count, 1);
    assert_eq!(state.get_game("ABCD".to_string()), Err(GameError::GameNotFound));
    assert_eq!(state.create_game(CreateGameRequest { rounds }), Err(GameError::MissingQuestions));
    assert_eq!(state.stats().games_count, 1);
}

#[test]
fn a_board_without_rounds_is_missing_questions() {
    assert!(!CreateGameRequest { rounds: vec![] }.is_acceptable());
    assert_missing_questions(vec![]);
}

#[test]
fn a_round_without_categories_is_missing_questions() {
    let mut rounds = board();
    rounds.push(vec![]);
    assert_missing_questions(rounds);
}

#[test]
fn a_category_without_questions_is_missing_questions() {
    let mut rounds = board();
    rounds[0].push(Category {
        category_id: "c2".to_string(),
        name: "Empty".to_string(),
        questions: vec![],
    });
    assert_missing_questions(rounds);
}

#[test]
fn a_question_without_answer_is_missing_questions() {
    let mut rounds = board();
    rounds[0][0].questions.push(question("q2", 200, ""));
    assert_missing_questions(rounds);
}

#[test]
fn a_question_without_text_is_missing_questions() {
    let mut rounds = board();
    rounds[0][0].questions[0].detail = String::new();
    assert_missing_questions(rounds);
}

#[test]
fn an_unplayable_board_is_turned_down_before_the_code_is_looked_at() {
    let mut state = registry_with("ABCD", 1);
    assert_eq!(
        state.create_game_with_code(CreateGameRequest { rounds: vec![] }, "ABCD".to_string(), 2),
        Err(GameError::MissingQuestions)
    );
    assert_eq!(
        state.create_game_with_code(CreateGameRequest { rounds: vec![] }, "no code".to_string(), 2),
        Err(GameError::MissingQuestions)
    );
}

#[test]
fn a_code_in_use_fails_the_creation_and_keeps_the_first_game() {
    let mut state = registry_with("ABCD", 1);
    assert_eq!(state.join_game("ABCD".to_string(), "host".to_string(), PlayerRole::Host), Ok(()));
    let first = state.get_game("ABCD".to_string()).unwrap();
    assert_eq!(
        state.create_game_with_code(request(), "ABCD".to_string(), 2),
        Err(GameError::FailedToCreateGame)
    );
    assert_eq!(state.stats().games_count, 1);
    assert_eq!(state.get_game("ABCD".to_string()), Ok(first));
}

#[test]
fn a_text_that_is_no_code_fails_the_creation() {
    let mut state = AppState::new();
    for bad in ["", "ABC", "ABCDEFG", "abcd", "AB1D", "ABC D", "ÄBCD"] {
        assert!(!check_code(&bad.to_string()));
        assert_eq!(
            state.create_game_with_code(request(), bad.to_string(), 1),
            Err(GameError::FailedToCreateGame)
        );
    }
    assert_eq!(state.stats().games_count, 0);
    for good in ["ABCD", "ZZZZZ", "QWERTY"] {
        assert!(check_code(&good.to_string()));
        assert!(state.create_game_with_code(request(), good.to_string(), 1).is_ok());
    }
    assert_eq!(state.stats().games_count, 3);
}

#[test]
fn a_drawn_code_has_four_upper_case_letters() {
    let mut seen = Vec::new();
    for _ in 0..200 {
        let code = draw_code();
        assert_eq!(code.chars().count(), 4);
        assert!(code.chars().all(|c| c.is_ascii_uppercase()));
        assert!(check_code(&code));
        if !seen.contains(&code) {
            seen.push(code);
        }
    }
    assert!(seen.len() > 1);
}

#[test]
fn a_game_is_created_under_a_drawn_code() {
    let mut state = AppState::new();
    let before = get_time();
    let game = state.create_game(request()).unwrap();
    assert!(check_code(&game.id));
    assert_eq!(game.id.len(), 4);
    assert_eq!(game.state, GameState::WaitingToStart);
    assert_eq!(game.rounds, board());
    assert_eq!(game.log.len(), 1);
    match &game.log[0] {
        GameLog::GameCreated { time } => assert!(*time >= before),
        other => panic!("unexpected log entry {:?}", other),
    }
    assert_eq!(state.stats().games_count, 1);
    assert_eq!(state.get_game(game.id.clone()), Ok(game));
}

#[test]
fn codes_are_looked_up_in_upper_case() {
    let mut state = registry_with("ABCD", 1);
    assert_eq!(state.join_game("abcd".to_string(), "alice".to_string(), PlayerRole::Contestant), Ok(()));
    assert_eq!(state.join_game("aBcD".to_string(), "bob".to_string(), PlayerRole::Contestant), Ok(()));
    let game = state.get_game("abCD".to_string()).unwrap();
    assert_eq!(game.players.len(), 2);
    assert_eq!(act(&mut state, "abcd", "alice", UpdateGameRequest::LeaveGame), Ok(()));
    assert_eq!(state.get_game("ABCD".to_string()).unwrap().players.len(), 1);
    assert!(state.subscribe("abcd".to_string()).is_ok());
}

#[test]
fn joining_checks_the_code_then_the_name_then_the_registry() {
    let mut state = registry_with("ABCD", 1);
    let long_name = "a".repeat(21);
    assert_eq!(
        state.join_game("ABCDEFG".to_string(), long_name.clone(), PlayerRole::Contestant),
        Err(GameError::GameNotFound)
    );
    assert_eq!(
        state.join_game("ABCD".to_string(), long_name.clone(), PlayerRole::Contestant),
        Err(GameError::UsernameTooLong)
    );
    assert_eq!(
        state.join_game("WXYZ".to_string(), long_name, PlayerRole::Contestant),
        Err(GameError::UsernameTooLong)
    );
    assert_eq!(
        state.join_game("WXYZ".to_string(), "alice".to_string(), PlayerRole::Contestant),
        Err(GameError::GameNotFound)
    );
    assert!(state.get_game("ABCD".to_string()).unwrap().players.is_empty());
}

#[test]
fn a_name_of_twenty_characters_may_join() {
    let mut state = registry_with("ABCD", 1);
    let plain = "a".repeat(20);
    assert_eq!(state.join_game("ABCD".to_string(), plain, PlayerRole::Contestant), Ok(()));
    let accented = "é".repeat(20);
    assert_eq!(accented.len(), 40);
    assert_eq!(state.join_game("ABCD".to_string(), accented.clone(), PlayerRole::Contestant), Ok(()));
    assert_eq!(
        state.join_game("ABCD".to_string(), "é".repeat(21), PlayerRole::Contestant),
        Err(GameError::UsernameTooLong)
    );
    let game = state.get_game("ABCD".to_string()).unwrap();
    assert_eq!(game.players.len(), 2);
    assert_eq!(game.players[1].username, accented);
}

#[test]
fn joining_tells_everyone_the_new_summary() {
    let mut state = registry_with("ABCD", 1);
    let (welcome, mut receiver) = state.subscribe("ABCD".to_string()).unwrap();
    let empty = state.get_game("ABCD".to_string()).unwrap();
    assert_eq!(welcome, GameMessage::JoinGame { game: GameOverview::of(&empty) });

    let before = get_time();
    assert_eq!(state.join_game("ABCD".to_string(), "alice".to_string(), PlayerRole::Contestant), Ok(()));
    let game = state.get_game("ABCD".to_string()).unwrap();
    assert_eq!(
        game.players,
        vec![Player { username: "alice".to_string(), score: 0, role: PlayerRole::Contestant }]
    );
    assert_eq!(drain(&mut receiver), vec![GameMessage::GameUpdate { game: GameOverview::of(&game) }]);
    assert_eq!(state.remove_stale(before + 1_800_000), Vec::<String>::new());

    assert_eq!(state.join_game("ABCD".to_string(), "alice".to_string(), PlayerRole::Spectator), Ok(()));
    let game = state.get_game("ABCD".to_string()).unwrap();
    assert_eq!(
        game.players,
        vec![Player { username: "alice".to_string(), score: 0, role: PlayerRole::Spectator }]
    );
    assert_eq!(drain(&mut receiver), vec![GameMessage::GameUpdate { game: GameOverview::of(&game) }]);
}

#[test]
fn a_refused_join_tells_nobody_and_changes_nothing() {
    let mut state = registry_with("ABCD", 1);
    state.join_game("ABCD".to_string(), "host".to_string(), PlayerRole::Host).unwrap();
    act(&mut state, "ABCD", "host", UpdateGameRequest::StartGame).unwrap();
    let (_, mut receiver) = state.subscribe("ABCD".to_string()).unwrap();
    let before = state.get_game("ABCD".to_string()).unwrap();
    assert_eq!(
        state.join_game("ABCD".to_string(), "late".to_string(), PlayerRole::Contestant),
        Err(GameError::NewPlayerCannotJoinAfterStart)
    );
    assert_eq!(state.get_game("ABCD".to_string()), Ok(before));
    assert_eq!(drain(&mut receiver), vec![]);
    assert_eq!(state.join_game("ABCD".to_string(), "late".to_string(), PlayerRole::Spectator), Ok(()));
    assert_eq!(drain(&mut receiver).len(), 1);
}

#[test]
fn a_whole_game_through_the_registry() {
    let mut state = registry_with("ABCD", 1);
    state.join_game("ABCD".to_string(), "host".to_string(), PlayerRole::Host).unwrap();
    state.join_game("ABCD".to_string(), "alice".to_string(), PlayerRole::Contestant).unwrap();
    let (_, mut receiver) = state.subscribe("ABCD".to_string()).unwrap();

    act(&mut state, "ABCD", "host", UpdateGameRequest::StartGame).unwrap();
    assert_eq!(state.get_game("ABCD".to_string()).unwrap().state, GameState::PickAQuestion);
    act(&mut state, "ABCD", "host", UpdateGameRequest::PickQuestion { question_id: "q1".to_string() })
        .unwrap();
    assert_eq!(
        state.get_game("ABCD".to_string()).unwrap().state,
        GameState::ReadQuestion { question: question("q1", 100, "Paris") }
    );
    act(&mut state, "ABCD", "host", UpdateGameRequest::AllowAnswering).unwrap();
    act(&mut state, "ABCD", "alice", UpdateGameRequest::AnswerQuestion).unwrap();
    let seen = drain(&mut receiver);
    assert_eq!(seen.len(), 4);
    assert!(seen.iter().all(|message| matches!(message, GameMessage::GameUpdate { .. })));

    act(&mut state, "ABCD", "host", UpdateGameRequest::ConfirmAnswer { is_correct: true }).unwrap();
    let game = state.get_game("ABCD".to_string()).unwrap();
    assert_eq!(game.state, GameState::Finished);
    assert_eq!(game.players[1].score, 100);
    assert_eq!(game.last_winner, "alice");
    assert!(game.rounds[0][0].questions[0].answered);
    let mut closed = question("q1", 100, "Paris");
    closed.answered = true;
    assert_eq!(
        drain(&mut receiver),
        vec![
            GameMessage::QuestionUpdate { question: closed },
            GameMessage::GameUpdate { game: GameOverview::of(&game) },
        ]
    );
}

#[test]
fn a_request_for_an_unknown_game_finds_no_game() {
    let mut state = registry_with("ABCD", 1);
    assert_eq!(act(&mut state, "WXYZ", "host", UpdateGameRequest::StartGame), Err(GameError::GameNotFound));
    assert_eq!(
        act(&mut state, "WXYZ", "host", UpdateGameRequest::ConfirmAnswer { is_correct: true }),
        Err(GameError::GameNotFound)
    );
    assert!(matches!(state.subscribe("WXYZ".to_string()), Err(GameError::GameNotFound)));
    assert_eq!(state.stats().games_count, 1);
}

#[test]
fn a_refusal_is_shown_to_its_sender_alone() {
    let mut state = registry_with("ABCD", 1);
    state.join_game("ABCD".to_string(), "host".to_string(), PlayerRole::Host).unwrap();
    state.join_game("ABCD".to_string(), "alice".to_string(), PlayerRole::Contestant).unwrap();
    let (_, mut receiver) = state.subscribe("ABCD".to_string()).unwrap();
    let before = state.get_game("ABCD".to_string()).unwrap();

    assert_eq!(act(&mut state, "ABCD", "alice", UpdateGameRequest::StartGame), Ok(()));
    assert_eq!(state.get_game("ABCD".to_string()), Ok(before));
    let seen = drain(&mut receiver);
    assert_eq!(
        seen,
        vec![GameMessage::ReportError {
            error: GameError::InsufficientPermissions,
            message: "User has insufficient permissions to perform this action.",
            username: "alice".to_string(),
        }]
    );
    assert_eq!(shown_to(&seen, "alice").len(), 1);
    assert_eq!(shown_to(&seen, "host"), vec![]);
}

#[test]
fn leaving_before_the_start_ends_one_session_only() {
    let mut state = registry_with("ABCD", 1);
    state.join_game("ABCD".to_string(), "alice".to_string(), PlayerRole::Contestant).unwrap();
    state.join_game("ABCD".to_string(), "bob".to_string(), PlayerRole::Contestant).unwrap();
    let (_, mut for_alice) = state.subscribe("ABCD".to_string()).unwrap();
    let (_, mut for_bob) = state.subscribe("ABCD".to_string()).unwrap();
    assert_eq!(state.get_game("ABCD".to_string()).unwrap().players.len(), 2);

    assert_eq!(act(&mut state, "ABCD", "alice", UpdateGameRequest::LeaveGame), Ok(()));

    let game = state.get_game("ABCD".to_string()).unwrap();
    assert_eq!(game.players.len(), 1);
    assert_eq!(game.players[0].username, "bob");
    let end = GameMessage::EndSession { username: "alice".to_string() };
    let update = GameMessage::GameUpdate { game: GameOverview::of(&game) };
    let to_alice = drain(&mut for_alice);
    let to_bob = drain(&mut for_bob);
    assert_eq!(shown_to(&to_alice, "alice"), vec![end.clone(), update.clone()]);
    assert_eq!(shown_to(&to_bob, "bob"), vec![update]);
    assert!(!shown_to(&to_bob, "bob").contains(&end));
}

#[test]
fn a_session_is_stale_after_thirty_minutes_without_use() {
    assert!(!is_stale(1_000, 1_000));
    assert!(!is_stale(1_000, 1_000 + 1_800_000));
    assert!(is_stale(1_000, 1_000 + 1_800_001));
    assert!(!is_stale(5_000, 1_000));
    assert!(!is_stale(u128::MAX, 0));
    assert!(is_stale(0, u128::MAX));
}

#[test]
fn stale_sessions_are_removed_and_no_others() {
    let mut state = AppState::new();
    state.create_game_with_code(request(), "OLDA".to_string(), 1_000).unwrap();
    state.create_game_with_code(request(), "OLDB".to_string(), 2_000).unwrap();
    state.create_game_with_code(request(), "EDGE".to_string(), 10_000).unwrap();
    state.create_game_with_code(request(), "LIVE".to_string(), 1_000_000).unwrap();
    assert_eq!(state.stats().games_count, 4);

    assert_eq!(state.remove_stale(1_000 + 1_800_000), Vec::<String>::new());
    assert_eq!(state.stats().games_count, 4);

    let mut removed = state.remove_stale(10_000 + 1_800_000);
    removed.sort();
    assert_eq!(removed, vec!["OLDA".to_string(), "OLDB".to_string()]);
    assert_eq!(state.stats().games_count, 2);
    assert_eq!(state.get_game("OLDA".to_string()), Err(GameError::GameNotFound));
    assert_eq!(state.get_game("OLDB".to_string()), Err(GameError::GameNotFound));
    assert!(state.get_game("EDGE".to_string()).is_ok());
    assert!(state.get_game("LIVE".to_string()).is_ok());

    assert_eq!(state.remove_stale(10_000 + 1_800_001), vec!["EDGE".to_string()]);
    assert_eq!(state.stats().games_count, 1);
    assert!(state.get_game("LIVE".to_string()).is_ok());
}

#[test]
fn a_request_counts_as_use_even_when_it_is_refused() {
    let mut state = registry_with("ABCD", 1_000);
    let now = get_time();
    assert_eq!(act(&mut state, "ABCD", "nobody", UpdateGameRequest::StartGame), Ok(()));
    assert_eq!(state.remove_stale(now + 1_800_000), Vec::<String>::new());
    assert_eq!(state.stats().games_count, 1);
}

#[test]
fn the_sweep_by_the_clock_removes_what_was_last_used_long_ago() {
    let mut state = AppState::new();
    state.create_game_with_code(request(), "OLDA".to_string(), 1_000).unwrap();
    let fresh = state.create_game(request()).unwrap();
    assert_eq!(state.cleanup_old_games(), vec!["OLDA".to_string()]);
    assert_eq!(state.stats().games_count, 1);
    assert!(state.get_game(fresh.id).is_ok());
    assert_eq!(state.cleanup_old_games(), Vec::<String>::new());
}

#[test]
fn removing_a_session_forgets_the_game() {
    let mut state = registry_with("ABCD", 1);
    state.create_game_with_code(request(), "WXYZ".to_string(), 1).unwrap();
    state.remove(&"ABCD".to_string());
    assert_eq!(state.stats().games_count, 1);
    assert_eq!(state.get_game("ABCD".to_string()), Err(GameError::GameNotFound));
    assert!(state.get_game("WXYZ".to_string()).is_ok());
    state.remove(&"ABCD".to_string());
    assert_eq!(state.stats().games_count, 1);
}

#[test]
fn an_action_that_overflows_a_score_does_not_fit() {
    let mut state = AppState::new();
    let mut rounds = board();
    rounds[0][0].questions[0].value = isize::MAX;
    rounds[0][0].questions.push(question("q2", isize::MAX, "two"));
    state.create_game_with_code(CreateGameRequest { rounds }, "ABCD".to_string(), 1).unwrap();
    state.join_game("ABCD".to_string(), "host".to_string(), PlayerRole::Host).unwrap();
    state.join_game("ABCD".to_string(), "alice".to_string(), PlayerRole::Contestant).unwrap();
    act(&mut state, "ABCD", "host", UpdateGameRequest::StartGame).unwrap();
    for id in ["q1", "q2"] {
        act(&mut state, "ABCD", "host", UpdateGameRequest::PickQuestion { question_id: id.to_string() })
            .unwrap();
        act(&mut state, "ABCD", "host", UpdateGameRequest::AllowAnswering).unwrap();
        act(&mut state, "ABCD", "alice", UpdateGameRequest::AnswerQuestion).unwrap();
        if id == "q1" {
            act(&mut state, "ABCD", "host", UpdateGameRequest::ConfirmAnswer { is_correct: true })
                .unwrap();
        }
    }
    let code = "abcd".to_string();
    let before = state.get_game(code.clone()).unwrap();
    assert_eq!(
        state.try_handle_action(
            code.clone(),
            "host".to_string(),
            UpdateGameRequest::ConfirmAnswer { is_correct: true }
        ),
        None
    );
    assert_eq!(state.get_game(code.clone()), Ok(before));
    assert!(!state.action_fits(&code, &UpdateGameRequest::ConfirmAnswer { is_correct: true }));
    assert!(state.action_fits(&code, &UpdateGameRequest::ConfirmAnswer { is_correct: false }));
    assert!(state.action_fits(&code, &UpdateGameRequest::EndQuestion));
    assert!(state.action_fits(&"WXYZ".to_string(), &UpdateGameRequest::ConfirmAnswer { is_correct: true }));
}

fn session() -> GameEntry {
    let game: Game = request().into_game("ABCD".to_string(), 5);
    GameEntry::new(game, 5)
}

#[test]
fn a_new_session_has_been_used_at_its_creation() {
    let entry = session();
    assert_eq!(entry.last_updated, 5);
    assert_eq!(entry.game.id, "ABCD");
    assert!(!entry.is_stale(5 + 1_800_000));
    assert!(entry.is_stale(5 + 1_800_001));
    assert_eq!(entry.welcome(), GameMessage::JoinGame { game: GameOverview::of(&entry.game) });
}

#[test]
fn what_is_published_reaches_every_observer_in_order() {
    let mut entry = session();
    let mut first = entry.subscribe();
    entry.publish(GameMessage::EndSession { username: "a".to_string() });
    let mut second = entry.subscribe();
    entry.publish_all(&vec![
        GameMessage::EndSession { username: "b".to_string() },
        GameMessage::EndSession { username: "c".to_string() },
    ]);
    assert_eq!(
        drain(&mut first),
        vec![
            GameMessage::EndSession { username: "a".to_string() },
            GameMessage::EndSession { username: "b".to_string() },
            GameMessage::EndSession { username: "c".to_string() },
        ]
    );
    assert_eq!(
        drain(&mut second),
        vec![
            GameMessage::EndSession { username: "b".to_string() },
            GameMessage::EndSession { username: "c".to_string() },
        ]
    );
}

#[test]
fn an_observer_that_falls_behind_skips_the_oldest_messages() {
    let mut entry = session();
    let mut slow = entry.subscribe();
    for i in 0..20 {
        entry.publish(GameMessage::EndSession { username: format!("user{}", i) });
    }
    assert_eq!(slow.try_recv(), Err(TryRecvError::Lagged(4)));
    let seen = drain(&mut slow);
    assert_eq!(seen.len(), 16);
    assert_eq!(seen[0], GameMessage::EndSession { username: "user4".to_string() });
    assert_eq!(seen[15], GameMessage::EndSession { username: "user19".to_string() });
}

#[test]
fn publishing_without_observers_is_no_error() {
    let mut entry = session();
    drop(entry.subscribe());
    entry.publish(GameMessage::EndSession { username: "a".to_string() });
    entry.publish(GameMessage::EndSession { username: "b".to_string() });
    assert_eq!(entry.game.state, GameState::WaitingToStart);
}

#[test]
fn a_request_in_a_session_is_published_and_counts_as_use() {
    let mut entry = session();
    assert_eq!(entry.join("host".to_string(), PlayerRole::Host, 7), Ok(()));
    assert_eq!(entry.last_updated, 7);
    let mut receiver = entry.subscribe();
    entry.handle_request_at("host".to_string(), UpdateGameRequest::StartGame, 9);
    assert_eq!(entry.last_updated, 9);
    assert_eq!(entry.game.state, GameState::PickAQuestion);
    assert_eq!(
        drain(&mut receiver),
        vec![GameMessage::GameUpdate { game: GameOverview::of(&entry.game) }]
    );

    let before = get_time();
    handle_game_request(&mut entry, "host".to_string(), UpdateGameRequest::StartGame);
    assert!(entry.last_updated >= before);
    assert_eq!(entry.game.state, GameState::PickAQuestion);
    assert_eq!(
        entry.game.log,
        vec![GameLog::GameCreated { time: 5 }, GameLog::GameStarted { time: 9 }]
    );
    assert_eq!(
        drain(&mut receiver),
        vec![GameMessage::ReportError {
            error: GameError::InvalidGameState,
            message: "Game is not in a valid state.",
            username: "host".to_string(),
        }]
    );
}

#[test]
fn a_refused_join_in_a_session_does_not_count_as_use() {
    let mut entry = session();
    assert_eq!(entry.game.start_game(PlayerRole::Host, 6), Ok(()));
    assert_eq!(
        entry.join("late".to_string(), PlayerRole::Contestant, 8),
        Err(GameError::NewPlayerCannotJoinAfterStart)
    );
    assert_eq!(entry.last_updated, 5);
    assert!(entry.game.players.is_empty());
}

#[test]
fn a_request_that_fits_is_handled_at_once() {
    let mut state = registry_with("ABCD", 1);
    state.join_game("ABCD".to_string(), "host".to_string(), PlayerRole::Host).unwrap();
    assert_eq!(
        state.try_handle_action("abcd".to_string(), "host".to_string(), UpdateGameRequest::StartGame),
        Some(Ok(()))
    );
    assert_eq!(state.get_game("ABCD".to_string()).unwrap().state, GameState::PickAQuestion);
    assert_eq!(
        state.try_handle_action("WXYZ".to_string(), "host".to_string(), UpdateGameRequest::StartGame),
        Some(Err(GameError::GameNotFound))
    );
}

#[test]
fn only_the_letters_a_to_z_are_raised_in_a_code() {
    let mut state = registry_with("ABCD", 1);
    assert_eq!(
        state.join_game("äbcd".to_string(), "alice".to_string(), PlayerRole::Contestant),
        Err(GameError::GameNotFound)
    );
    assert_eq!(state.get_game("ab1d".to_string()), Err(GameError::GameNotFound));
    assert!(state.get_game("abcd".to_string()).is_ok());
}
