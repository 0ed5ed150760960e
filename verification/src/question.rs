//! Posing a question: an image from the catalog and four options, among
//! which the image of the round before is to be found again.

use crate::draw::{all_below, all_differ, get_four_random_choice, get_random_index, holds, OPTION_COUNT};
use crate::error::GameError;
use crate::models::{GameQuestion, QuestionView};
use vstd::prelude::*;

verus! {

/// The smallest catalog from which questions are posed.
pub const MIN_CATALOG: usize = 5;

/// The `id` that every posed question carries.
pub const QUESTION_ID: i32 = 1;

/// The random draws that decide a question.
#[derive(Debug)]
pub struct Draws {
    /// The position of the image that is shown.
    pub question_index: usize,
    /// Four different positions, offered as they are in the first question
    /// of a round.
    pub decoys: Vec<usize>,
    /// The option that is given to the image shown; zero where no image
    /// went before and no slot is drawn.
    pub first_slot: usize,
    /// The option that is given to the image of the round before, where
    /// that image is not among the options yet; where it is, or where no
    /// image went before, no slot is drawn and this repeats the first.
    pub second_slot: usize,
}

/// The draws as plain values.
pub struct DrawsView {
    pub question_index: usize,
    pub decoys: Seq<usize>,
    pub first_slot: usize,
    pub second_slot: usize,
}

impl View for Draws {
    type V = DrawsView;

    open spec fn view(&self) -> DrawsView {
        DrawsView {
            question_index: self.question_index,
            decoys: self.decoys@,
            first_slot: self.first_slot,
            second_slot: self.second_slot,
        }
    }
}

impl DrawsView {
    /// Whether these draws can be made for a catalog of `length` images.
    pub open spec fn fits(self, length: nat) -> bool {
        &&& self.question_index < length
        &&& self.decoys.len() == OPTION_COUNT
        &&& all_below(self.decoys, length)
        &&& all_differ(self.decoys)
        &&& self.first_slot < OPTION_COUNT
        &&& self.second_slot < OPTION_COUNT
    }
}

/// The options once the image shown has taken its slot among the decoys.
pub open spec fn with_shown(draws: DrawsView) -> Seq<usize> {
    draws.decoys.update(draws.first_slot as int, draws.question_index)
}

/// The catalog positions that are offered as options.
///
/// In the first question of a round, where no image went before, they are
/// the decoys. Otherwise the image shown takes the first slot, and the image
/// of the round before, unless it is among the options by then, takes the
/// second slot, which may be the same one.
pub open spec fn chosen(previous_index: Option<usize>, draws: DrawsView) -> Seq<usize> {
    match previous_index {
        None => draws.decoys,
        Some(position) => if with_shown(draws).contains(position) {
            with_shown(draws)
        } else {
            with_shown(draws).update(draws.second_slot as int, position)
        },
    }
}

/// The question that `draws` gives for `catalog` after the image at
/// `previous_index`.
pub open spec fn posed(catalog: Seq<Seq<char>>, previous_index: Option<usize>, draws: DrawsView) -> QuestionView {
    let choices = chosen(previous_index, draws);
    QuestionView {
        id: QUESTION_ID as int,
        question_image_url: catalog[draws.question_index as int],
        options: Seq::new(choices.len(), |i: int| catalog[choices[i] as int]),
    }
}

/// The first position at which the image `previous` stands in `catalog`.
pub open spec fn position_of(catalog: Seq<Seq<char>>, previous: Option<Seq<char>>) -> Option<usize> {
    match previous {
        Some(url) => match catalog.index_of_first(url) {
            Some(index) => Some(index as usize),
            None => None,
        },
        None => None,
    }
}

/// Whether some draws give `question` for `catalog` after the image
/// `previous`.
pub open spec fn can_be_posed(
    catalog: Seq<Seq<char>>,
    previous: Option<Seq<char>>,
    question: QuestionView,
) -> bool {
    exists|draws: DrawsView| #[trigger]
        draws.fits(catalog.len()) && question == posed(
            catalog,
            position_of(catalog, previous),
            draws,
        )
}

/// What holds of every question for `catalog` after the image `previous`:
/// it shows an image of the catalog and offers four of them, and the image
/// of the round before, where there is one, is among the four.
pub open spec fn well_posed(
    catalog: Seq<Seq<char>>,
    previous: Option<Seq<char>>,
    question: QuestionView,
) -> bool {
    &&& question.id == QUESTION_ID
    &&& catalog.contains(question.question_image_url)
    &&& question.options.len() == OPTION_COUNT
    &&& forall|i: int|
        0 <= i < question.options.len() ==> catalog.contains(#[trigger] question.options[i])
    &&& previous is Some ==> question.options.contains(previous->0)
}

/// The options are four positions of the catalog, and the position of the
/// image of the round before, where there is one, is among them.
pub proof fn lemma_chosen(length: nat, previous_index: Option<usize>, draws: DrawsView)
    requires
        draws.fits(length),
        previous_index matches Some(position) ==> position < length,
    ensures
        chosen(previous_index, draws).len() == OPTION_COUNT,
        all_below(chosen(previous_index, draws), length),
        previous_index matches Some(position) ==> chosen(previous_index, draws).contains(position),
{
    if let Some(position) = previous_index {
        if !with_shown(draws).contains(position) {
            let choices = with_shown(draws).update(draws.second_slot as int, position);
            assert(choices[draws.second_slot as int] == position);
        }
    }
}

/// Every question that can be posed is well posed.
pub proof fn lemma_posed_is_well_posed(
    catalog: Seq<Seq<char>>,
    previous: Option<Seq<char>>,
    draws: DrawsView,
)
    requires
        catalog.len() <= usize::MAX,
        draws.fits(catalog.len()),
        previous is Some ==> catalog.contains(previous->0),
    ensures
        well_posed(catalog, previous, posed(catalog, position_of(catalog, previous), draws)),
{
    let previous_index = position_of(catalog, previous);
    if previous is Some {
        catalog.index_of_first_ensures(previous->0);
    }
    lemma_chosen(catalog.len(), previous_index, draws);
    let choices = chosen(previous_index, draws);
    let question = posed(catalog, previous_index, draws);
    if previous is Some {
        let position = previous_index->0;
        let slot = choose|i: int| 0 <= i < choices.len() && choices[i] == position;
        assert(question.options[slot] == catalog[position as int]);
    }
}

/// The first position at which `url` stands in `catalog`.
pub fn position(catalog: &Vec<String>, url: &String) -> (found: Option<usize>)
    ensures
        found == position_of(catalog.deep_view(), Some(url@)),
        found is Some <==> catalog.deep_view().contains(url@),
        found matches Some(index) ==> index < catalog.len(),
{
    let ghost texts = catalog.deep_view();
    proof {
        texts.index_of_first_ensures(url@);
    }
    let mut i: usize = 0;
    while i < catalog.len()
        invariant
            i <= catalog.len(),
            texts == catalog.deep_view(),
            forall|j: int| 0 <= j < i ==> texts[j] != url@,
        decreases catalog.len() - i,
    {
        if catalog[i] == *url {
            proof {
                assert(texts[i as int] == url@);
                texts.index_of_first_ensures(url@);
            }
            return Some(i);
        }
        i += 1;
    }
    None
}

/// Whether `position` is among the options once the image at
/// `question_index` has taken `first_slot` among `decoys`.
pub fn is_offered(decoys: &Vec<usize>, first_slot: usize, question_index: usize, position: usize) -> (yes:
    bool)
    requires
        first_slot < decoys.len(),
    ensures
        yes == decoys@.update(first_slot as int, question_index).contains(position),
{
    let ghost placed = decoys@.update(first_slot as int, question_index);
    let mut i: usize = 0;
    while i < decoys.len()
        invariant
            i <= decoys.len(),
            first_slot < decoys.len(),
            placed == decoys@.update(first_slot as int, question_index),
            forall|j: int| 0 <= j < i ==> placed[j] != position,
        decreases decoys.len() - i,
    {
        let offered = if i == first_slot {
            question_index
        } else {
            decoys[i]
        };
        if offered == position {
            assert(placed[i as int] == position);
            return true;
        }
        i += 1;
    }
    false
}

impl Draws {
    /// Makes the draws for a question from a catalog of `length` images.
    ///
    /// The image to show and the four decoys are always drawn. Where the
    /// question follows the image at `previous_index`, the slot of the image
    /// shown is drawn too, and a slot for the image before only where that
    /// image is not among the options by then.
    pub fn draw(length: usize, previous_index: Option<usize>) -> (draws: Draws)
        requires
            length >= OPTION_COUNT,
        ensures
            draws@.fits(length as nat),
            previous_index is None ==> draws.first_slot == 0 && draws.second_slot == 0,
            previous_index matches Some(position) && with_shown(draws@).contains(position)
                ==> draws.second_slot == draws.first_slot,
    {
        let question_index = get_random_index(length);
        let decoys = get_four_random_choice(length);
        match previous_index {
            None => Draws { question_index, decoys, first_slot: 0, second_slot: 0 },
            Some(position) => {
                let first_slot = get_random_index(OPTION_COUNT);
                let second_slot = if is_offered(&decoys, first_slot, question_index, position) {
                    first_slot
                } else {
                    get_random_index(OPTION_COUNT)
                };
                Draws { question_index, decoys, first_slot, second_slot }
            },
        }
    }
}

/// The question that `draws` gives for `catalog` after the image at
/// `previous_index`.
pub fn pose_question(catalog: &Vec<String>, previous_index: Option<usize>, draws: Draws) -> (question:
    GameQuestion)
    requires
        draws@.fits(catalog.len() as nat),
        previous_index matches Some(position) ==> position < catalog.len(),
    ensures
        question@ == posed(catalog.deep_view(), previous_index, draws@),
{
    let ghost texts = catalog.deep_view();
    let ghost drawn = draws@;
    let question_index = draws.question_index;
    let first_slot = draws.first_slot;
    let second_slot = draws.second_slot;
    let mut choices = draws.decoys;
    if let Some(position) = previous_index {
        choices.set(first_slot, question_index);
        if !holds(&choices, position) {
            choices.set(second_slot, position);
        }
    }
    proof {
        lemma_chosen(catalog.len() as nat, previous_index, drawn);
    }
    let mut options: Vec<String> = Vec::new();
    let mut i: usize = 0;
    while i < choices.len()
        invariant
            i <= choices.len(),
            options.len() == i,
            texts == catalog.deep_view(),
            all_below(choices@, catalog.len() as nat),
            forall|j: int| 0 <= j < i ==> options[j]@ == texts[choices[j] as int],
        decreases choices.len() - i,
    {
        options.push(catalog[choices[i]].clone());
        i += 1;
    }
    let question = GameQuestion {
        id: QUESTION_ID,
        question_image_url: catalog[question_index].clone(),
        options,
    };
    assert(question@.options =~= posed(texts, previous_index, drawn).options);
    question
}

/// The texts of an optional reference to a string.
pub open spec fn text_of(text: Option<&String>) -> Option<Seq<char>> {
    match text {
        Some(text) => Some(text@),
        None => None,
    }
}

/// A question for `catalog`, drawn at random, after the image
/// `previous_answer`.
///
/// A catalog of fewer than five images gives no question. From a larger one
/// a question always comes: the one that `pose_question` gives for the draws
/// that were made.
pub fn generate_question(catalog: &Vec<String>, previous_answer: Option<&String>) -> (reply: Result<
    GameQuestion,
    GameError,
>)
    requires
        catalog.len() >= MIN_CATALOG ==> (previous_answer matches Some(url)
            ==> catalog.deep_view().contains(url@)),
    ensures
        catalog.len() < MIN_CATALOG ==> reply matches Err(GameError::NotEnoughImages),
        catalog.len() >= MIN_CATALOG ==> reply is Ok,
        reply matches Ok(question) ==> can_be_posed(
            catalog.deep_view(),
            text_of(previous_answer),
            question@,
        ) && well_posed(catalog.deep_view(), text_of(previous_answer), question@),
{
    let length = catalog.len();
    if length < MIN_CATALOG {
        return Err(GameError::NotEnoughImages);
    }
    let previous_index = match previous_answer {
        Some(url) => position(catalog, url),
        None => None,
    };
    let draws = Draws::draw(length, previous_index);
    let ghost drawn = draws@;
    let question = pose_question(catalog, previous_index, draws);
    proof {
        lemma_posed_is_well_posed(catalog.deep_view(), text_of(previous_answer), drawn);
    }
    Ok(question)
}

} // verus!
