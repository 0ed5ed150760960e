//! The values that a quiz session and the leaderboards are made of.

use std::time::Instant;
use vstd::prelude::*;

verus! {

/// A posed question: the image shown and the images offered as answers.
#[derive(Debug)]
pub struct GameQuestion {
    pub id: i32,
    pub question_image_url: String,
    pub options: Vec<String>,
}

/// What a question says, with its texts as sequences of characters.
pub struct QuestionView {
    pub id: int,
    pub question_image_url: Seq<char>,
    pub options: Seq<Seq<char>>,
}

impl View for GameQuestion {
    type V = QuestionView;

    open spec fn view(&self) -> QuestionView {
        QuestionView {
            id: self.id as int,
            question_image_url: self.question_image_url@,
            options: self.options.deep_view(),
        }
    }
}

impl Clone for GameQuestion {
    fn clone(&self) -> (copy: GameQuestion)
        ensures
            copy@ == self@,
    {
        GameQuestion {
            id: self.id,
            question_image_url: self.question_image_url.clone(),
            options: self.options.clone(),
        }
    }
}

/// One player's round as the session keeps it between requests.
#[derive(Debug)]
pub struct GameState {
    pub previous_answer: Option<String>,
    pub current_question: GameQuestion,
    pub current_time_used: Instant,
    pub current_correct: u64,
    pub username: Option<String>,
}

/// What a session holds, with its texts as sequences of characters.
pub struct StateView {
    pub previous_answer: Option<Seq<char>>,
    pub current_question: QuestionView,
    pub current_time_used: Instant,
    pub current_correct: nat,
    pub username: Option<Seq<char>>,
}

impl View for GameState {
    type V = StateView;

    open spec fn view(&self) -> StateView {
        StateView {
            previous_answer: self.previous_answer.deep_view(),
            current_question: self.current_question@,
            current_time_used: self.current_time_used,
            current_correct: self.current_correct as nat,
            username: self.username.deep_view(),
        }
    }
}

impl Clone for GameState {
    fn clone(&self) -> (copy: GameState)
        ensures
            copy@ == self@,
    {
        GameState {
            previous_answer: self.previous_answer.clone(),
            current_question: self.current_question.clone(),
            current_time_used: self.current_time_used.clone(),
            current_correct: self.current_correct,
            username: self.username.clone(),
        }
    }
}

impl Default for GameState {
    /// A session before anything has happened: no question posed, no name
    /// chosen, nothing counted, the clock started now.
    fn default() -> (state: GameState)
        ensures
            state@.previous_answer is None,
            state@.current_question.id == 0,
            state@.current_question.question_image_url =~= Seq::<char>::empty(),
            state@.current_question.options =~= Seq::<Seq<char>>::empty(),
            state@.current_correct == 0,
            state@.username is None,
    {
        GameState {
            previous_answer: None,
            current_question: GameQuestion {
                id: 0,
                question_image_url: String::new(),
                options: Vec::new(),
            },
            current_time_used: Instant::now(),
            current_correct: 0,
            username: None,
        }
    }
}

/// An answer as a player sends it: the position of the chosen option.
#[derive(Debug, Clone)]
pub struct AnswerData {
    pub answer: usize,
}

/// The result of a round as the record store keeps it.
#[derive(Debug)]
pub struct GameResult {
    pub user_name: String,
    pub time_used: u32,
    pub correct_num: u32,
}

/// What a stored result says, with the name as a sequence of characters.
pub struct ResultView {
    pub user_name: Seq<char>,
    pub time_used: nat,
    pub correct_num: nat,
}

impl View for GameResult {
    type V = ResultView;

    open spec fn view(&self) -> ResultView {
        ResultView {
            user_name: self.user_name@,
            time_used: self.time_used as nat,
            correct_num: self.correct_num as nat,
        }
    }
}

/// One line of a leaderboard.
#[derive(Debug)]
pub struct RankEntry {
    pub user_name: String,
    pub correct_num: i32,
    pub used_time: i32,
}

/// What a leaderboard line says, with the name as a sequence of characters.
pub struct EntryView {
    pub user_name: Seq<char>,
    pub correct_num: int,
    pub used_time: int,
}

impl View for RankEntry {
    type V = EntryView;

    open spec fn view(&self) -> EntryView {
        EntryView {
            user_name: self.user_name@,
            correct_num: self.correct_num as int,
            used_time: self.used_time as int,
        }
    }
}

impl Clone for RankEntry {
    fn clone(&self) -> (copy: RankEntry)
        ensures
            copy@ == self@,
    {
        RankEntry {
            user_name: self.user_name.clone(),
            correct_num: self.correct_num,
            used_time: self.used_time,
        }
    }
}

impl DeepView for RankEntry {
    type V = EntryView;

    open spec fn deep_view(&self) -> EntryView {
        self@
    }
}

} // verus!
