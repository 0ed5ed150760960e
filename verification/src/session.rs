//! What a player's requests do to the session: choosing a name and asking
//! for the next question.

use crate::answer::{is_right, state_after};
use crate::error::GameError;
use crate::models::{GameQuestion, GameState, QuestionView, StateView};
use crate::question::{can_be_posed, generate_question, well_posed, MIN_CATALOG};
use std::time::Instant;
use vstd::prelude::*;

verus! {

/// The image that the session showed last, if a question is waiting for its
/// answer: the image to be found again among the options of the next one.
pub open spec fn shown_before(state: StateView) -> Option<Seq<char>> {
    if state.previous_answer is Some {
        Some(state.current_question.question_image_url)
    } else {
        None
    }
}

/// The answer that is awaited once `question` has been posed to `state`:
/// the image of the question before or, where none is waiting, the image of
/// `question` itself.
pub open spec fn awaited(state: StateView, question: QuestionView) -> Seq<char> {
    match shown_before(state) {
        Some(url) => url,
        None => question.question_image_url,
    }
}

/// Whether a question can be posed to `state` from `catalog`: a player is
/// named and the catalog is large enough.
pub open spec fn can_ask(state: StateView, catalog: Seq<Seq<char>>) -> bool {
    state.username is Some && catalog.len() >= MIN_CATALOG
}

/// The session once `question` has been posed to it, apart from the clock
/// and the count, which only the start of a round changes.
pub open spec fn with_question(state: StateView, question: QuestionView) -> StateView {
    StateView {
        previous_answer: Some(awaited(state, question)),
        current_question: question,
        ..state
    }
}

/// Whether the session is one that the quiz brings about from `catalog`:
/// where a question waits for its answer, the question shows an image of
/// the catalog and offers four of them, and the awaited answer is among the
/// options or, in the first question of a round, the image shown.
pub open spec fn is_sound(state: StateView, catalog: Seq<Seq<char>>) -> bool {
    state.previous_answer matches Some(url) ==> {
        &&& well_posed(catalog, None, state.current_question)
        &&& url == state.current_question.question_image_url
            || state.current_question.options.contains(url)
    }
}

/// A session in which no question waits for its answer is sound, whatever
/// the catalog: such is a new session, and a session after a round.
pub proof fn lemma_idle_session_is_sound(state: StateView, catalog: Seq<Seq<char>>)
    requires
        state.previous_answer is None,
    ensures
        is_sound(state, catalog),
{
}

/// To a sound session the next question can always be posed: the image
/// that it showed last is in the catalog.
pub proof fn lemma_sound_session_can_be_asked(state: StateView, catalog: Seq<Seq<char>>)
    requires
        is_sound(state, catalog),
    ensures
        shown_before(state) matches Some(url) ==> catalog.contains(url),
{
}

/// An answer leaves a sound session sound.
pub proof fn lemma_answer_keeps_sound(
    state: StateView,
    catalog: Seq<Seq<char>>,
    answer: nat,
    is_race: bool,
)
    requires
        is_sound(state, catalog),
    ensures
        is_sound(state_after(state, answer, is_race), catalog),
{
}

/// A question that follows another can be answered rightly: the image that
/// went before is among its options, and the option that holds it is the
/// right answer.
pub proof fn lemma_right_answer_is_offered(
    state: StateView,
    catalog: Seq<Seq<char>>,
    question: QuestionView,
)
    requires
        shown_before(state) is Some,
        well_posed(catalog, shown_before(state), question),
    ensures
        exists|answer: nat| #[trigger] is_right(with_question(state, question), answer),
{
    let url = shown_before(state)->0;
    let place = choose|i: int| 0 <= i < question.options.len() && question.options[i] == url;
    assert(is_right(with_question(state, question), place as nat));
}

/// Gives the session the player's name.
///
/// An empty name is refused and leaves the session as it was.
pub fn set_username(state: &mut GameState, username: String) -> (reply: Result<(), GameError>)
    ensures
        username@.len() == 0 ==> reply matches Err(GameError::EmptyUsername),
        username@.len() == 0 ==> final(state)@ == old(state)@,
        username@.len() > 0 ==> reply is Ok && final(state)@ == (StateView {
            username: Some(username@),
            ..old(state)@
        }),
        forall|catalog: Seq<Seq<char>>| #[trigger]
            is_sound(old(state)@, catalog) ==> is_sound(final(state)@, catalog),
{
    if username.as_str().is_empty() {
        return Err(GameError::EmptyUsername);
    }
    state.username = Some(username);
    Ok(())
}

/// Poses the next question to the session.
///
/// With `begin_flag` a round begins: the clock starts anew and the count of
/// right answers returns to zero, whether or not a question follows. No
/// question is posed to a session without a player name, nor from a catalog
/// of fewer than five images; the session then keeps its question and the
/// answer it awaits. Otherwise the session takes the new question, and the
/// answer it awaits is the image that it showed before or, at the start of
/// a round, the image of the new question.
pub fn get_question(state: &mut GameState, image_paths: &Vec<String>, begin_flag: bool) -> (reply:
    Result<GameQuestion, GameError>)
    requires
        can_ask(old(state)@, image_paths.deep_view()) ==> (shown_before(old(state)@) matches Some(
            url,
        ) ==> image_paths.deep_view().contains(url)),
    ensures
        final(state)@.username == old(state)@.username,
        final(state)@.current_correct == (if begin_flag {
            0
        } else {
            old(state)@.current_correct
        }),
        !begin_flag ==> final(state)@.current_time_used == old(state)@.current_time_used,
        old(state)@.username is None ==> reply matches Err(GameError::NeedUsername),
        old(state)@.username is Some && image_paths.len() < MIN_CATALOG ==> reply matches Err(
            GameError::NotEnoughImages,
        ),
        can_ask(old(state)@, image_paths.deep_view()) ==> reply is Ok,
        reply is Err ==> final(state)@.previous_answer == old(state)@.previous_answer,
        reply is Err ==> final(state)@.current_question == old(state)@.current_question,
        reply matches Ok(question) ==> {
            &&& final(state)@.current_question == with_question(
                old(state)@,
                question@,
            ).current_question
            &&& final(state)@.previous_answer == with_question(
                old(state)@,
                question@,
            ).previous_answer
            &&& can_be_posed(image_paths.deep_view(), shown_before(old(state)@), question@)
            &&& well_posed(image_paths.deep_view(), shown_before(old(state)@), question@)
        },
        reply is Ok || is_sound(old(state)@, image_paths.deep_view()) ==> is_sound(
            final(state)@,
            image_paths.deep_view(),
        ),
{
    if begin_flag {
        state.current_time_used = Instant::now();
        state.current_correct = 0;
    }
    if state.username.is_none() {
        return Err(GameError::NeedUsername);
    }
    let first = state.previous_answer.is_none();
    let generated = if first {
        generate_question(image_paths, None)
    } else {
        generate_question(image_paths, Some(&state.current_question.question_image_url))
    };
    match generated {
        Ok(question) => {
            if first {
                state.previous_answer = Some(question.question_image_url.clone());
            } else {
                state.previous_answer = Some(state.current_question.question_image_url.clone());
            }
            state.current_question = question.clone();
            Ok(question)
        },
        Err(error) => Err(error),
    }
}

} // verus!
