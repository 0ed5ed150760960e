use picture_quiz::answer::{submit_answer, RankTable, Verdict};
use picture_quiz::error::GameError;
use picture_quiz::models::{AnswerData, GameQuestion, GameState};
use picture_quiz::session::{get_question, set_username};

fn catalog() -> Vec<String> {
    ["A", "B", "C", "D", "E", "F"].iter().map(|name| format!("/pic/{name}.jpg")).collect()
}

#[test]
fn default_session_is_blank() {
    let state = GameState::default();
    assert!(state.previous_answer.is_none());
    assert_eq!(state.current_question.id, 0);
    assert_eq!(state.current_question.question_image_url, "");
    assert!(state.current_question.options.is_empty());
    assert_eq!(state.current_correct, 0);
    assert!(state.username.is_none());
    assert!(state.current_time_used.elapsed().as_millis() < 60_000);
}

#[test]
fn clone_keeps_the_session() {
    let mut state = GameState::default();
    state.username = Some("alice".to_string());
    state.previous_answer = Some("/pic/A.jpg".to_string());
    state.current_correct = 9;
    state.current_question = GameQuestion {
        id: 1,
        question_image_url: "/pic/B.jpg".to_string(),
        options: vec!["/pic/A.jpg".to_string(), "/pic/C.jpg".to_string()],
    };
    let copy = state.clone();
    assert_eq!(copy.username, state.username);
    assert_eq!(copy.previous_answer, state.previous_answer);
    assert_eq!(copy.current_correct, 9);
    assert_eq!(copy.current_time_used, state.current_time_used);
    assert_eq!(copy.current_question.id, 1);
    assert_eq!(copy.current_question.question_image_url, "/pic/B.jpg");
    assert_eq!(copy.current_question.options, state.current_question.options);
}

#[test]
fn empty_name_is_refused() {
    let mut state = GameState::default();
    state.current_correct = 4;
    let started = state.current_time_used;
    let reply = set_username(&mut state, String::new());
    assert!(matches!(reply, Err(GameError::EmptyUsername)));
    assert!(state.username.is_none());
    assert!(state.previous_answer.is_none());
    assert_eq!(state.current_correct, 4);
    assert_eq!(state.current_time_used, started);
    assert_eq!(state.current_question.id, 0);
}

#[test]
fn empty_name_does_not_replace_a_name() {
    let mut state = GameState::default();
    assert!(set_username(&mut state, "alice".to_string()).is_ok());
    assert!(matches!(set_username(&mut state, String::new()), Err(GameError::EmptyUsername)));
    assert_eq!(state.username.as_deref(), Some("alice"));
}

#[test]
fn name_is_kept() {
    let mut state = GameState::default();
    state.current_correct = 4;
    assert!(set_username(&mut state, "alice".to_string()).is_ok());
    assert_eq!(state.username.as_deref(), Some("alice"));
    assert_eq!(state.current_correct, 4);
    assert!(set_username(&mut state, "bob".to_string()).is_ok());
    assert_eq!(state.username.as_deref(), Some("bob"));
}

#[test]
fn question_needs_a_name() {
    let mut state = GameState::default();
    let reply = get_question(&mut state, &catalog(), false);
    assert!(matches!(reply, Err(GameError::NeedUsername)));
    assert!(state.previous_answer.is_none());
    assert_eq!(state.current_question.id, 0);
}

#[test]
fn begin_flag_resets_the_count_even_without_a_name() {
    let mut state = GameState::default();
    state.current_correct = 11;
    let reply = get_question(&mut state, &catalog(), true);
    assert!(matches!(reply, Err(GameError::NeedUsername)));
    assert_eq!(state.current_correct, 0);
}

#[test]
fn question_needs_five_images() {
    let mut state = GameState::default();
    state.username = Some("alice".to_string());
    state.current_correct = 6;
    let images: Vec<String> = catalog().into_iter().take(4).collect();
    let reply = get_question(&mut state, &images, false);
    assert!(matches!(reply, Err(GameError::NotEnoughImages)));
    assert!(state.previous_answer.is_none());
    assert_eq!(state.current_question.id, 0);
    assert_eq!(state.current_correct, 6);
}

#[test]
fn name_is_asked_for_before_the_catalog_is_looked_at() {
    let mut state = GameState::default();
    let reply = get_question(&mut state, &Vec::new(), false);
    assert!(matches!(reply, Err(GameError::NeedUsername)));
}

#[test]
fn first_question_awaits_its_own_image() {
    let images = catalog();
    let mut state = GameState::default();
    state.username = Some("alice".to_string());
    state.current_correct = 3;
    let started = state.current_time_used;
    let question = get_question(&mut state, &images, false).unwrap();
    assert_eq!(question.options.len(), 4);
    assert_eq!(state.previous_answer.as_ref(), Some(&question.question_image_url));
    assert_eq!(state.current_question.question_image_url, question.question_image_url);
    assert_eq!(state.current_question.options, question.options);
    assert_eq!(state.current_question.id, 1);
    assert_eq!(state.current_correct, 3);
    assert_eq!(state.current_time_used, started);
}

#[test]
fn later_question_awaits_the_image_before() {
    let images = catalog();
    let mut state = GameState::default();
    state.username = Some("alice".to_string());
    let mut shown = get_question(&mut state, &images, true).unwrap().question_image_url;
    for _ in 0..100 {
        let question = get_question(&mut state, &images, false).unwrap();
        assert_eq!(state.previous_answer.as_ref(), Some(&shown));
        assert!(question.options.contains(&shown));
        assert_eq!(state.current_question.options, question.options);
        shown = question.question_image_url;
    }
}

#[test]
fn begin_flag_starts_the_clock_anew() {
    let images = catalog();
    let mut state = GameState::default();
    state.username = Some("alice".to_string());
    state.current_correct = 5;
    let started = state.current_time_used;
    get_question(&mut state, &images, true).unwrap();
    assert_eq!(state.current_correct, 0);
    assert!(state.current_time_used >= started);
}

#[test]
fn wrong_answer_after_the_first_question_is_recorded_for_practice() {
    let images = catalog();
    let mut state = GameState::default();
    assert!(set_username(&mut state, "alice".to_string()).is_ok());
    let question = get_question(&mut state, &images, true).unwrap();
    assert_eq!(question.options.len(), 4);
    for option in &question.options {
        assert!(images.contains(option));
    }
    let awaited = state.previous_answer.clone().unwrap();
    let wrong = question.options.iter().position(|option| *option != awaited).unwrap();
    let outcome = submit_answer(&mut state, &AnswerData { answer: wrong }, false).unwrap();
    assert!(!outcome.verdict.success());
    match outcome.verdict {
        Verdict::Wrong { correct_all, .. } => assert_eq!(correct_all, 0),
        other => panic!("unexpected verdict {other:?}"),
    }
    let record = outcome.record.unwrap();
    assert_eq!(record.table, RankTable::Rank);
    assert_eq!(record.result.user_name, "alice");
    assert_eq!(record.result.correct_num, 0);
    assert_eq!(state.current_correct, 0);
    assert!(state.previous_answer.is_none());
}

#[test]
fn race_of_thirty_questions_is_completed() {
    let images = catalog();
    let mut state = GameState::default();
    assert!(set_username(&mut state, "alice".to_string()).is_ok());
    get_question(&mut state, &images, true).unwrap();
    for round in 1..=30u64 {
        let question = get_question(&mut state, &images, false).unwrap();
        let awaited = state.previous_answer.clone().unwrap();
        let right = question.options.iter().position(|option| *option == awaited).unwrap();
        let outcome = submit_answer(&mut state, &AnswerData { answer: right }, true).unwrap();
        assert!(outcome.verdict.success());
        if round < 30 {
            assert_eq!(outcome.verdict, Verdict::Right);
            assert_eq!(state.current_correct, round);
            assert!(outcome.record.is_none());
        } else {
            assert!(outcome.verdict.upto());
            let record = outcome.record.unwrap();
            assert_eq!(record.table, RankTable::RaceRank);
            assert_eq!(record.result.user_name, "alice");
            assert_eq!(record.result.correct_num, 30);
            assert_eq!(state.current_correct, 0);
            assert!(state.previous_answer.is_none());
        }
    }
}

#[test]
fn question_after_a_round_is_a_first_question_again() {
    let images = catalog();
    let mut state = GameState::default();
    state.username = Some("alice".to_string());
    get_question(&mut state, &images, true).unwrap();
    let outcome = submit_answer(&mut state, &AnswerData { answer: 9 }, false).unwrap();
    assert!(!outcome.verdict.success());
    let question = get_question(&mut state, &images, false).unwrap();
    assert_eq!(state.previous_answer.as_ref(), Some(&question.question_image_url));
}
