//! Judging an answer: whether it is right, what it does to the round, and
//! what is to be written to the record store.

use crate::error::GameError;
use crate::models::{AnswerData, GameResult, GameState, ResultView, StateView};
use vstd::prelude::*;

verus! {

/// The number of right answers in a row that completes a race.
pub const RACE_LENGTH: u64 = 30;

/// The two tables of the record store.
#[derive(Debug, Clone, Copy, PartialEq, Eq, Structural)]
pub enum RankTable {
    /// Rounds of practice, written when a wrong answer ends them.
    Rank,
    /// Completed races.
    RaceRank,
}

/// How an answer was judged.
#[derive(Debug, Clone, Copy, PartialEq, Eq, Structural)]
pub enum Verdict {
    /// Right, and the round goes on.
    Right,
    /// Right, and the race is complete.
    Finished { time_used: u128, correct_all: u64 },
    /// Wrong: the round is over.
    Wrong { time_used: u128, correct_all: u64 },
}

impl Verdict {
    /// Whether the answer was right.
    pub open spec fn spec_success(&self) -> bool {
        !(self is Wrong)
    }

    /// Whether the answer completed a race.
    pub open spec fn spec_upto(&self) -> bool {
        self is Finished
    }

    #[verifier::when_used_as_spec(spec_success)]
    pub fn success(&self) -> (yes: bool)
        ensures
            yes == self.spec_success(),
    {
        match self {
            Verdict::Wrong { .. } => false,
            _ => true,
        }
    }

    #[verifier::when_used_as_spec(spec_upto)]
    pub fn upto(&self) -> (yes: bool)
        ensures
            yes == self.spec_upto(),
    {
        match self {
            Verdict::Finished { .. } => true,
            _ => false,
        }
    }
}

/// A result together with the table it goes to.
#[derive(Debug)]
pub struct RankRecord {
    pub table: RankTable,
    pub result: GameResult,
}

/// What judging an answer comes to: the verdict for the player and, where
/// the round is to be remembered, the record to store.
#[derive(Debug)]
pub struct AnswerOutcome {
    pub verdict: Verdict,
    pub record: Option<RankRecord>,
}

/// An outcome with its record as a plain value.
pub struct OutcomeView {
    pub verdict: Verdict,
    pub record: Option<(RankTable, ResultView)>,
}

impl View for AnswerOutcome {
    type V = OutcomeView;

    open spec fn view(&self) -> OutcomeView {
        OutcomeView {
            verdict: self.verdict,
            record: match self.record {
                Some(record) => Some((record.table, record.result@)),
                None => None,
            },
        }
    }
}

/// The outcome or the failure of a call, with the outcome as a plain value.
pub open spec fn reply_view(reply: Result<AnswerOutcome, GameError>) -> Result<
    OutcomeView,
    GameError,
> {
    match reply {
        Ok(outcome) => Ok(outcome@),
        Err(error) => Err(error),
    }
}

/// What is left of a number when it is stored in 32 bits.
pub open spec fn low_32(value: nat) -> nat {
    value % 0x1_0000_0000
}

/// Whether `answer` points at the option that equals the awaited answer.
pub open spec fn is_right(state: StateView, answer: nat) -> bool {
    &&& state.previous_answer is Some
    &&& answer < state.current_question.options.len()
    &&& state.current_question.options[answer as int] == state.previous_answer->0
}

/// Whether a right answer to `state` completes a race.
pub open spec fn completes_race(state: StateView, is_race: bool) -> bool {
    is_race && state.current_correct + 1 == RACE_LENGTH
}

/// Whether an answer to `state` is judged at all: a player is named and a
/// question is waiting.
pub open spec fn is_judged(state: StateView) -> bool {
    state.username is Some && state.previous_answer is Some
}

/// Whether the answer ends the round: it is wrong, or it completes a race.
pub open spec fn ends_round(state: StateView, answer: nat, is_race: bool) -> bool {
    is_judged(state) && (!is_right(state, answer) || completes_race(state, is_race))
}

/// The session after an answer.
pub open spec fn state_after(state: StateView, answer: nat, is_race: bool) -> StateView {
    if !is_judged(state) {
        state
    } else if ends_round(state, answer, is_race) {
        StateView { previous_answer: None, current_correct: 0, ..state }
    } else {
        StateView { current_correct: state.current_correct + 1, ..state }
    }
}

/// The reply to an answer that is given `elapsed` milliseconds after the
/// round began.
pub open spec fn reply_to(state: StateView, answer: nat, is_race: bool, elapsed: nat) -> Result<
    OutcomeView,
    GameError,
> {
    if state.username is None {
        Err(GameError::NeedUsername)
    } else if state.previous_answer is None {
        Err(GameError::NoPreviousAnswer)
    } else if is_right(state, answer) {
        if completes_race(state, is_race) {
            Ok(
                OutcomeView {
                    verdict: Verdict::Finished {
                        time_used: elapsed as u128,
                        correct_all: RACE_LENGTH,
                    },
                    record: Some(
                        (
                            RankTable::RaceRank,
                            ResultView {
                                user_name: state.username->0,
                                time_used: low_32(elapsed),
                                correct_num: RACE_LENGTH as nat,
                            },
                        ),
                    ),
                },
            )
        } else {
            Ok(OutcomeView { verdict: Verdict::Right, record: None })
        }
    } else {
        Ok(
            OutcomeView {
                verdict: Verdict::Wrong {
                    time_used: elapsed as u128,
                    correct_all: state.current_correct as u64,
                },
                record: if is_race {
                    None
                } else {
                    Some(
                        (
                            RankTable::Rank,
                            ResultView {
                                user_name: state.username->0,
                                time_used: low_32(elapsed),
                                correct_num: low_32(state.current_correct),
                            },
                        ),
                    )
                },
            },
        )
    }
}

/// The low 32 bits of a count of milliseconds.
fn millis_to_u32(value: u128) -> (low: u32)
    ensures
        low as nat == low_32(value as nat),
{
    let low: u32 = (value & 0xffff_ffff) as u32;
    assert(value & 0xffff_ffff == value % 0x1_0000_0000) by (bit_vector);
    low
}

/// The low 32 bits of a count of answers.
fn count_to_u32(value: u64) -> (low: u32)
    ensures
        low as nat == low_32(value as nat),
{
    let low: u32 = (value & 0xffff_ffff) as u32;
    assert(value & 0xffff_ffff == value % 0x1_0000_0000) by (bit_vector);
    low
}

/// Whether `answer` is judged and found right: a player is named, a
/// question is waiting, and `answer` points at the option that equals the
/// awaited answer.
pub fn is_right_answer(state: &GameState, answer: &AnswerData) -> (yes: bool)
    ensures
        yes == (is_judged(state@) && is_right(state@, answer.answer as nat)),
{
    match &state.previous_answer {
        Some(expected) => state.username.is_some() && answer.answer
            < state.current_question.options.len()
            && state.current_question.options[answer.answer] == *expected,
        None => false,
    }
}

/// Whether `answer` ends the round: it is judged and is wrong, or it
/// completes a race.
pub fn ends_the_round(state: &GameState, answer: &AnswerData, is_race: bool) -> (yes: bool)
    ensures
        yes == ends_round(state@, answer.answer as nat, is_race),
{
    if state.username.is_none() || state.previous_answer.is_none() {
        false
    } else if is_right_answer(state, answer) {
        is_race && state.current_correct == RACE_LENGTH - 1
    } else {
        true
    }
}

/// Judges `answer` against the question that `state` holds, `elapsed`
/// milliseconds after the round began.
///
/// Without a player name, or with no question waiting, the call fails and
/// the session stays as it was. A right answer is counted; in a race the
/// thirtieth in a row ends the round and is recorded in the race table. A
/// wrong answer ends the round, and outside a race it is recorded in the
/// practice table. Whenever a round ends the count returns to zero and no
/// question waits any longer.
pub fn judge_answer(state: &mut GameState, answer: &AnswerData, is_race: bool, elapsed: u128) -> (reply:
    Result<AnswerOutcome, GameError>)
    requires
        is_judged(old(state)@) && is_right(old(state)@, answer.answer as nat)
            ==> old(state).current_correct < u64::MAX,
    ensures
        final(state)@ == state_after(old(state)@, answer.answer as nat, is_race),
        reply_view(reply) == reply_to(old(state)@, answer.answer as nat, is_race, elapsed as nat),
        reply is Ok ==> (reply->Ok_0.verdict.success() <==> is_right(
            old(state)@,
            answer.answer as nat,
        )),
        ends_round(old(state)@, answer.answer as nat, is_race) ==> final(state)@.current_correct
            == 0 && final(state)@.previous_answer is None,
{
    let username = match &state.username {
        Some(name) => name.clone(),
        None => {
            return Err(GameError::NeedUsername);
        },
    };
    if state.previous_answer.is_none() {
        return Err(GameError::NoPreviousAnswer);
    }
    if is_right_answer(state, answer) {
        state.current_correct += 1;
        if is_race && state.current_correct == RACE_LENGTH {
            let correct_all = state.current_correct;
            state.previous_answer = None;
            state.current_correct = 0;
            let result = GameResult {
                user_name: username,
                time_used: millis_to_u32(elapsed),
                correct_num: count_to_u32(correct_all),
            };
            Ok(
                AnswerOutcome {
                    verdict: Verdict::Finished { time_used: elapsed, correct_all },
                    record: Some(RankRecord { table: RankTable::RaceRank, result }),
                },
            )
        } else {
            Ok(AnswerOutcome { verdict: Verdict::Right, record: None })
        }
    } else {
        let correct_all = state.current_correct;
        state.previous_answer = None;
        state.current_correct = 0;
        let record = if is_race {
            None
        } else {
            Some(
                RankRecord {
                    table: RankTable::Rank,
                    result: GameResult {
                        user_name: username,
                        time_used: millis_to_u32(elapsed),
                        correct_num: count_to_u32(correct_all),
                    },
                },
            )
        };
        Ok(AnswerOutcome { verdict: Verdict::Wrong { time_used: elapsed, correct_all }, record })
    }
}

/// Judges `answer` against the question that `state` holds, timing the
/// round by the clock.
///
/// The session changes as `judge_answer` says. Where the answer ends the
/// round, the clock is read, and the reply is the one that `judge_answer`
/// gives for the time that it shows: which time that is cannot be known
/// beforehand, everything else about the reply can. Where the round goes
/// on, or the answer is not judged, the reply does not depend on the time.
pub fn submit_answer(state: &mut GameState, answer: &AnswerData, is_race: bool) -> (reply: Result<
    AnswerOutcome,
    GameError,
>)
    requires
        is_judged(old(state)@) && is_right(old(state)@, answer.answer as nat)
            ==> old(state).current_correct < u64::MAX,
    ensures
        final(state)@ == state_after(old(state)@, answer.answer as nat, is_race),
        exists|elapsed: nat| #[trigger]
            reply_to(old(state)@, answer.answer as nat, is_race, elapsed) == reply_view(reply),
        !ends_round(old(state)@, answer.answer as nat, is_race) ==> reply_view(reply) == reply_to(
            old(state)@,
            answer.answer as nat,
            is_race,
            0,
        ),
        reply is Ok ==> (reply->Ok_0.verdict.success() <==> is_right(
            old(state)@,
            answer.answer as nat,
        )),
        ends_round(old(state)@, answer.answer as nat, is_race) ==> final(state)@.current_correct
            == 0 && final(state)@.previous_answer is None,
{
    let elapsed = if ends_the_round(state, answer, is_race) {
        state.current_time_used.elapsed().as_millis()
    } else {
        0
    };
    judge_answer(state, answer, is_race, elapsed)
}

} // verus!
