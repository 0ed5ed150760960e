//! The two leaderboards: each player's best rows of the record store, in
//! order, cut off after a hundred.

use crate::error::GameError;
use crate::models::{EntryView, RankEntry};
use vstd::prelude::*;
use vstd::set_lib::{
    lemma_int_range, lemma_len_subset, lemma_map_size, lemma_subset_equality, set_int_range,
};

verus! {

/// The number of lines that a leaderboard shows at most.
pub const BOARD_LENGTH: usize = 100;

/// The two leaderboards.
#[derive(Debug, Clone, Copy, PartialEq, Eq, Structural)]
pub enum Board {
    /// The most right answers in a row, the quicker round first among equals.
    BestScores,
    /// The quickest completed races.
    FastestRaces,
}

/// Whether `a` is a better result than `b` for the player who has both:
/// more right answers on the board of scores, less time on the board of
/// races.
pub open spec fn outdoes(board: Board, a: EntryView, b: EntryView) -> bool {
    match board {
        Board::BestScores => a.correct_num > b.correct_num,
        Board::FastestRaces => a.used_time < b.used_time,
    }
}

/// Whether `a` stands above `b` by what the rows say: on the board of scores
/// by more right answers, then by less time; on the board of races by less
/// time.
pub open spec fn ranks_above(board: Board, a: EntryView, b: EntryView) -> bool {
    match board {
        Board::BestScores => a.correct_num > b.correct_num || (a.correct_num == b.correct_num
            && a.used_time < b.used_time),
        Board::FastestRaces => a.used_time < b.used_time,
    }
}

/// Whether row `i` is on the board: no row of the same player outdoes it.
/// Rows of one player that are equally good are all on the board.
pub open spec fn is_listed(board: Board, rows: Seq<EntryView>, i: int) -> bool {
    &&& 0 <= i < rows.len()
    &&& forall|j: int|
        0 <= j < rows.len() && (#[trigger] rows[j]).user_name == rows[i].user_name ==> !outdoes(
            board,
            rows[j],
            rows[i],
        )
}

/// Whether row `i` comes before row `j` on the board: it ranks above it or,
/// where neither ranks above the other, it is the earlier row of the store.
pub open spec fn precedes(board: Board, rows: Seq<EntryView>, i: int, j: int) -> bool {
    ranks_above(board, rows[i], rows[j]) || (!ranks_above(board, rows[j], rows[i]) && i < j)
}

/// The rows on the board.
pub open spec fn all_listed(board: Board, rows: Seq<EntryView>) -> Set<int> {
    Set::new(|j: int| is_listed(board, rows, j))
}

/// The rows on the board that come before row `i`.
pub open spec fn listed_before(board: Board, rows: Seq<EntryView>, i: int) -> Set<int> {
    Set::new(|j: int| is_listed(board, rows, j) && precedes(board, rows, j, i))
}

/// The place of row `i` on the board, counted from zero: the number of rows
/// on the board that come before it.
pub open spec fn place_of(board: Board, rows: Seq<EntryView>, i: int) -> nat {
    listed_before(board, rows, i).len()
}

/// The row that has `place` on the board.
pub open spec fn holder_of(board: Board, rows: Seq<EntryView>, place: nat) -> int {
    choose|i: int| is_listed(board, rows, i) && place_of(board, rows, i) == place
}

/// The number of lines of the board.
pub open spec fn board_len(board: Board, rows: Seq<EntryView>) -> nat {
    if all_listed(board, rows).len() < BOARD_LENGTH {
        all_listed(board, rows).len()
    } else {
        BOARD_LENGTH as nat
    }
}

/// The board for the stored `rows`: the rows on the board by their places,
/// as far as the board reaches.
pub open spec fn ranking(board: Board, rows: Seq<EntryView>) -> Seq<EntryView> {
    Seq::new(board_len(board, rows), |place: int| rows[holder_of(board, rows, place as nat)])
}

/// Whether no line of `lines` ranks above an earlier one.
pub open spec fn in_order(board: Board, lines: Seq<EntryView>) -> bool {
    forall|k: int, l: int| 0 <= k < l < lines.len() ==> !ranks_above(board, lines[l], lines[k])
}

proof fn lemma_listed_sets(board: Board, rows: Seq<EntryView>, i: int)
    ensures
        all_listed(board, rows).finite(),
        all_listed(board, rows).len() <= rows.len(),
        listed_before(board, rows, i).finite(),
        listed_before(board, rows, i).len() <= all_listed(board, rows).len(),
{
    lemma_int_range(0, rows.len() as int);
    lemma_len_subset(all_listed(board, rows), set_int_range(0, rows.len() as int));
    lemma_len_subset(listed_before(board, rows, i), all_listed(board, rows));
}

/// Of two rows on the board, the one that comes before the other has the
/// lower place, and every place is below the number of rows on the board.
pub proof fn lemma_places_follow_order(board: Board, rows: Seq<EntryView>, i: int, j: int)
    requires
        is_listed(board, rows, i),
        is_listed(board, rows, j),
        precedes(board, rows, i, j),
    ensures
        place_of(board, rows, i) < place_of(board, rows, j),
        place_of(board, rows, j) < all_listed(board, rows).len(),
{
    lemma_listed_sets(board, rows, i);
    lemma_listed_sets(board, rows, j);
    let before_i = listed_before(board, rows, i);
    let before_j = listed_before(board, rows, j);
    lemma_len_subset(before_i.insert(i), before_j);
    lemma_len_subset(before_j.insert(j), all_listed(board, rows));
}

/// The place of a row on the board is below the number of rows on it.
pub proof fn lemma_place_is_on_board(board: Board, rows: Seq<EntryView>, i: int)
    requires
        is_listed(board, rows, i),
    ensures
        place_of(board, rows, i) < all_listed(board, rows).len(),
{
    lemma_listed_sets(board, rows, i);
    let before = listed_before(board, rows, i);
    lemma_len_subset(before.insert(i), all_listed(board, rows));
}

/// No two rows on the board share a place.
pub proof fn lemma_place_is_unique(board: Board, rows: Seq<EntryView>, i: int, j: int)
    requires
        is_listed(board, rows, i),
        is_listed(board, rows, j),
        place_of(board, rows, i) == place_of(board, rows, j),
    ensures
        i == j,
{
    if precedes(board, rows, i, j) {
        lemma_places_follow_order(board, rows, i, j);
    } else if precedes(board, rows, j, i) {
        lemma_places_follow_order(board, rows, j, i);
    }
}

/// Every place below the number of rows on the board is held by a row on
/// the board.
pub proof fn lemma_every_place_is_held(board: Board, rows: Seq<EntryView>, place: nat)
    requires
        place < all_listed(board, rows).len(),
    ensures
        is_listed(board, rows, holder_of(board, rows, place)),
        place_of(board, rows, holder_of(board, rows, place)) == place,
{
    let all = all_listed(board, rows);
    let places = set_int_range(0, all.len() as int);
    let place_at = |i: int| place_of(board, rows, i) as int;
    let held = all.map(place_at);
    lemma_listed_sets(board, rows, 0);
    lemma_int_range(0, all.len() as int);
    assert forall|i: int, j: int|
        all.contains(i) && all.contains(j) && #[trigger] place_at(i) == #[trigger] place_at(
            j,
        ) implies i == j by {
        lemma_place_is_unique(board, rows, i, j);
    }
    lemma_map_size(all, held, place_at);
    assert forall|p: int| held.contains(p) implies places.contains(p) by {
        let i = choose|i: int| all.contains(i) && p == place_at(i);
        lemma_place_is_on_board(board, rows, i);
    }
    lemma_subset_equality(held, places);
    assert(held.contains(place as int));
}

/// A row on the board whose place the board reaches stands there.
pub proof fn lemma_row_stands_at_its_place(board: Board, rows: Seq<EntryView>, i: int)
    requires
        is_listed(board, rows, i),
        place_of(board, rows, i) < BOARD_LENGTH,
    ensures
        place_of(board, rows, i) < ranking(board, rows).len(),
        ranking(board, rows)[place_of(board, rows, i) as int] == rows[i],
{
    let place = place_of(board, rows, i);
    lemma_place_is_on_board(board, rows, i);
    lemma_every_place_is_held(board, rows, place);
    lemma_place_is_unique(board, rows, i, holder_of(board, rows, place));
}

/// The leaderboard has at most a hundred lines, each of them the row on
/// the board that has the place of the line, and no line ranks above an
/// earlier one.
pub proof fn lemma_ranking_in_order(board: Board, rows: Seq<EntryView>)
    ensures
        ranking(board, rows).len() <= BOARD_LENGTH,
        forall|place: nat|
            place < ranking(board, rows).len() ==> is_listed(
                board,
                rows,
                #[trigger] holder_of(board, rows, place),
            ) && place_of(board, rows, holder_of(board, rows, place)) == place,
        in_order(board, ranking(board, rows)),
{
    let lines = ranking(board, rows);
    assert forall|place: nat| place < lines.len() implies is_listed(
        board,
        rows,
        #[trigger] holder_of(board, rows, place),
    ) && place_of(board, rows, holder_of(board, rows, place)) == place by {
        lemma_every_place_is_held(board, rows, place);
    }
    assert forall|k: int, l: int| 0 <= k < l < lines.len() implies !ranks_above(
        board,
        lines[l],
        lines[k],
    ) by {
        let first = holder_of(board, rows, k as nat);
        let second = holder_of(board, rows, l as nat);
        if precedes(board, rows, second, first) {
            lemma_places_follow_order(board, rows, second, first);
        }
    }
}

/// Of the first `bound` rows and row `i`, one of the player of row `i` that
/// none of them outdoes.
proof fn lemma_best_so_far(board: Board, rows: Seq<EntryView>, i: int, bound: int) -> (best: int)
    requires
        0 <= i < rows.len(),
        0 <= bound <= rows.len(),
    ensures
        0 <= best < rows.len(),
        rows[best].user_name == rows[i].user_name,
        !outdoes(board, rows[i], rows[best]),
        forall|j: int|
            0 <= j < bound && (#[trigger] rows[j]).user_name == rows[i].user_name ==> !outdoes(
                board,
                rows[j],
                rows[best],
            ),
    decreases bound,
{
    if bound == 0 {
        i
    } else {
        let earlier = lemma_best_so_far(board, rows, i, bound - 1);
        let row = rows[bound - 1];
        if row.user_name == rows[i].user_name && outdoes(board, row, rows[earlier]) {
            bound - 1
        } else {
            earlier
        }
    }
}

/// Every player of the store is on the board: of the rows of one player,
/// one is outdone by none.
pub proof fn lemma_every_player_is_listed(board: Board, rows: Seq<EntryView>, i: int)
    requires
        0 <= i < rows.len(),
    ensures
        exists|j: int| #[trigger]
            is_listed(board, rows, j) && rows[j].user_name == rows[i].user_name,
{
    let best = lemma_best_so_far(board, rows, i, rows.len() as int);
    assert(is_listed(board, rows, best));
}

/// Whether row `j` is still to come once row `last` has been placed.
pub open spec fn is_open(board: Board, rows: Seq<EntryView>, last: Option<int>, j: int) -> bool {
    is_listed(board, rows, j) && (last matches Some(l) ==> precedes(board, rows, l, j))
}

/// Whether row `next` is the first of the rows still to come.
pub open spec fn is_next(board: Board, rows: Seq<EntryView>, last: Option<int>, next: int) -> bool {
    &&& is_open(board, rows, last, next)
    &&& forall|j: int| #[trigger]
        is_open(board, rows, last, j) ==> j == next || precedes(board, rows, next, j)
}

proof fn lemma_next_place(board: Board, rows: Seq<EntryView>, last: Option<int>, next: int)
    requires
        last matches Some(l) ==> is_listed(board, rows, l),
        is_next(board, rows, last, next),
    ensures
        place_of(board, rows, next) == match last {
            Some(l) => place_of(board, rows, l) + 1,
            None => 0,
        },
{
    lemma_listed_sets(board, rows, next);
    let before = listed_before(board, rows, next);
    match last {
        Some(l) => {
            lemma_listed_sets(board, rows, l);
            let earlier = listed_before(board, rows, l);
            assert forall|j: int| before.contains(j) implies earlier.insert(l).contains(j) by {
                if j != l && !precedes(board, rows, j, l) {
                    assert(is_open(board, rows, last, j));
                }
            }
            assert(before =~= earlier.insert(l));
        },
        None => {
            assert forall|j: int| !before.contains(j) by {
                if is_listed(board, rows, j) {
                    assert(is_open(board, rows, last, j));
                }
            }
            assert(before =~= Set::empty());
        },
    }
}

proof fn lemma_board_is_full(board: Board, rows: Seq<EntryView>, last: Option<int>)
    requires
        last matches Some(l) ==> is_listed(board, rows, l),
        forall|j: int| !is_open(board, rows, last, j),
    ensures
        all_listed(board, rows).len() == match last {
            Some(l) => place_of(board, rows, l) + 1,
            None => 0,
        },
{
    let all = all_listed(board, rows);
    match last {
        Some(l) => {
            lemma_listed_sets(board, rows, l);
            let earlier = listed_before(board, rows, l);
            assert forall|j: int| all.contains(j) implies earlier.insert(l).contains(j) by {
                assert(!is_open(board, rows, last, j));
            }
            assert(all =~= earlier.insert(l));
        },
        None => {
            assert forall|j: int| !all.contains(j) by {
                assert(!is_open(board, rows, last, j));
            }
            assert(all =~= Set::empty());
        },
    }
}

fn outdoes_row(board: Board, a: &RankEntry, b: &RankEntry) -> (yes: bool)
    ensures
        yes == outdoes(board, a@, b@),
{
    match board {
        Board::BestScores => a.correct_num > b.correct_num,
        Board::FastestRaces => a.used_time < b.used_time,
    }
}

fn ranks_above_row(board: Board, a: &RankEntry, b: &RankEntry) -> (yes: bool)
    ensures
        yes == ranks_above(board, a@, b@),
{
    match board {
        Board::BestScores => a.correct_num > b.correct_num || (a.correct_num == b.correct_num
            && a.used_time < b.used_time),
        Board::FastestRaces => a.used_time < b.used_time,
    }
}

fn row_precedes(board: Board, rows: &Vec<RankEntry>, i: usize, j: usize) -> (yes: bool)
    requires
        i < rows.len(),
        j < rows.len(),
    ensures
        yes == precedes(board, rows.deep_view(), i as int, j as int),
{
    ranks_above_row(board, &rows[i], &rows[j]) || (!ranks_above_row(board, &rows[j], &rows[i])
        && i < j)
}

/// Whether row `i` of `rows` is on the board.
pub fn row_is_listed(board: Board, rows: &Vec<RankEntry>, i: usize) -> (yes: bool)
    requires
        i < rows.len(),
    ensures
        yes == is_listed(board, rows.deep_view(), i as int),
{
    let ghost texts = rows.deep_view();
    let mut j: usize = 0;
    while j < rows.len()
        invariant
            i < rows.len(),
            j <= rows.len(),
            texts == rows.deep_view(),
            forall|k: int|
                0 <= k < j && (#[trigger] texts[k]).user_name == texts[i as int].user_name
                    ==> !outdoes(board, texts[k], texts[i as int]),
        decreases rows.len() - j,
    {
        if rows[j].user_name == rows[i].user_name && outdoes_row(board, &rows[j], &rows[i]) {
            assert(texts[j as int].user_name == texts[i as int].user_name);
            return false;
        }
        j += 1;
    }
    true
}

fn listed_flags(board: Board, rows: &Vec<RankEntry>) -> (flags: Vec<bool>)
    ensures
        flags.len() == rows.len(),
        forall|i: int|
            0 <= i < flags.len() ==> #[trigger] flags[i] == is_listed(board, rows.deep_view(), i),
{
    let mut flags: Vec<bool> = Vec::new();
    let mut i: usize = 0;
    while i < rows.len()
        invariant
            i <= rows.len(),
            flags.len() == i,
            forall|k: int|
                0 <= k < i ==> #[trigger] flags[k] == is_listed(board, rows.deep_view(), k),
        decreases rows.len() - i,
    {
        flags.push(row_is_listed(board, rows, i));
        i += 1;
    }
    flags
}

fn next_row(board: Board, rows: &Vec<RankEntry>, flags: &Vec<bool>, last: Option<usize>) -> (next:
    Option<usize>)
    requires
        flags.len() == rows.len(),
        forall|i: int|
            0 <= i < flags.len() ==> #[trigger] flags[i] == is_listed(board, rows.deep_view(), i),
        last matches Some(l) ==> l < rows.len(),
    ensures
        match next {
            Some(found) => found < rows.len() && is_next(
                board,
                rows.deep_view(),
                last_view(last),
                found as int,
            ),
            None => forall|j: int| !is_open(board, rows.deep_view(), last_view(last), j),
        },
{
    let ghost texts = rows.deep_view();
    let ghost after = last_view(last);
    let mut found: Option<usize> = None;
    let mut j: usize = 0;
    while j < rows.len()
        invariant
            j <= rows.len(),
            flags.len() == rows.len(),
            texts == rows.deep_view(),
            after == last_view(last),
            last matches Some(l) ==> l < rows.len(),
            forall|i: int| 0 <= i < flags.len() ==> #[trigger] flags[i] == is_listed(board, texts, i),
            match found {
                Some(best) => best < j && is_open(board, texts, after, best as int) && forall|k: int|
                    0 <= k < j && #[trigger] is_open(board, texts, after, k) ==> k == best
                        || precedes(board, texts, best as int, k),
                None => forall|k: int| 0 <= k < j ==> !#[trigger] is_open(board, texts, after, k),
            },
        decreases rows.len() - j,
    {
        let open = flags[j] && match last {
            Some(l) => row_precedes(board, rows, l, j),
            None => true,
        };
        if open {
            let better = match found {
                Some(best) => row_precedes(board, rows, j, best),
                None => true,
            };
            if better {
                found = Some(j);
            }
        }
        j += 1;
    }
    found
}

/// The row placed last, as a position of the model.
pub open spec fn last_view(last: Option<usize>) -> Option<int> {
    match last {
        Some(l) => Some(l as int),
        None => None,
    }
}

/// The leaderboard `board` for the stored `rows`.
///
/// A row is on the board if no row of the same player outdoes it. The rows
/// on the board stand in the order of `precedes`, each at the place that is
/// the number of rows on the board before it, and the board ends after a
/// hundred lines.
pub fn rank_rows(board: Board, rows: &Vec<RankEntry>) -> (lines: Vec<RankEntry>)
    ensures
        lines.deep_view() == ranking(board, rows.deep_view()),
        lines.len() == board_len(board, rows.deep_view()),
        lines.len() <= BOARD_LENGTH,
        in_order(board, lines.deep_view()),
        forall|i: int|
            #[trigger] is_listed(board, rows.deep_view(), i) && place_of(board, rows.deep_view(), i)
                < BOARD_LENGTH ==> place_of(board, rows.deep_view(), i) < lines.len()
                && lines.deep_view()[place_of(board, rows.deep_view(), i) as int]
                == rows.deep_view()[i],
{
    let ghost texts = rows.deep_view();
    let flags = listed_flags(board, rows);
    let mut lines: Vec<RankEntry> = Vec::new();
    let mut last: Option<usize> = None;
    let mut full = false;
    let ghost mut picks: Seq<int> = Seq::empty();
    proof {
        lemma_listed_sets(board, texts, 0);
    }
    while !full && lines.len() < BOARD_LENGTH
        invariant
            texts == rows.deep_view(),
            flags.len() == rows.len(),
            forall|i: int| 0 <= i < flags.len() ==> #[trigger] flags[i] == is_listed(board, texts, i),
            lines.len() <= BOARD_LENGTH,
            picks.len() == lines.len(),
            forall|k: int|
                0 <= k < picks.len() ==> is_listed(board, texts, #[trigger] picks[k]) && place_of(
                    board,
                    texts,
                    picks[k],
                ) == k && lines.deep_view()[k] == texts[picks[k]],
            last_view(last) == (if picks.len() == 0 {
                None
            } else {
                Some(picks.last())
            }),
            last matches Some(l) ==> l < rows.len(),
            full ==> all_listed(board, texts).len() == lines.len(),
            !full ==> all_listed(board, texts).len() >= lines.len(),
        decreases BOARD_LENGTH - lines.len() + (if full { 0int } else { 1int }),
    {
        match next_row(board, rows, &flags, last) {
            Some(found) => {
                proof {
                    lemma_next_place(board, texts, last_view(last), found as int);
                    lemma_place_is_on_board(board, texts, found as int);
                    picks = picks.push(found as int);
                }
                lines.push(rows[found].clone());
                last = Some(found);
            },
            None => {
                proof {
                    lemma_board_is_full(board, texts, last_view(last));
                }
                full = true;
            },
        }
    }
    proof {
        let board_lines = ranking(board, texts);
        assert forall|k: int| 0 <= k < lines.len() implies lines.deep_view()[k] == board_lines[k] by {
            lemma_place_is_unique(board, texts, holder_of(board, texts, k as nat), picks[k]);
        }
        assert(lines.deep_view() =~= board_lines);
        lemma_ranking_in_order(board, texts);
        assert forall|i: int|
            #[trigger] is_listed(board, texts, i) && place_of(board, texts, i) < BOARD_LENGTH implies place_of(
            board,
            texts,
            i,
        ) < lines.len() && lines.deep_view()[place_of(board, texts, i) as int] == texts[i] by {
            lemma_row_stands_at_its_place(board, texts, i);
        }
    }
    lines
}

/// What reading the record store came to, with the rows as plain values.
pub open spec fn stored_view(stored: Result<Vec<RankEntry>, String>) -> Result<
    Seq<EntryView>,
    Seq<char>,
> {
    match stored {
        Ok(rows) => Ok(rows.deep_view()),
        Err(message) => Err(message@),
    }
}

/// The reply that the leaderboard `board` gives to what reading the record
/// store came to: the board for the rows that were read, or nothing but the
/// failure, with the store's own words, where they could not be read.
pub open spec fn board_reply(board: Board, stored: Result<Seq<EntryView>, Seq<char>>) -> Result<
    Seq<EntryView>,
    Seq<char>,
> {
    match stored {
        Ok(rows) => Ok(ranking(board, rows)),
        Err(message) => Err(message),
    }
}

/// What a leaderboard replied, as plain values: its lines, or the words of
/// the store that could not be read.
pub open spec fn reply_view(reply: Result<Vec<RankEntry>, GameError>) -> Result<
    Seq<EntryView>,
    Seq<char>,
> {
    match reply {
        Ok(lines) => Ok(lines.deep_view()),
        Err(GameError::StoreUnavailable(message)) => Err(message@),
        Err(error) => Err(error.spec_reason()),
    }
}

fn board_for(board: Board, stored: Result<Vec<RankEntry>, String>) -> (reply: Result<
    Vec<RankEntry>,
    GameError,
>)
    ensures
        reply_view(reply) == board_reply(board, stored_view(stored)),
        reply is Err ==> reply->Err_0 is StoreUnavailable,
        reply matches Ok(lines) ==> lines.len() <= BOARD_LENGTH && in_order(
            board,
            lines.deep_view(),
        ),
{
    match stored {
        Ok(rows) => Ok(rank_rows(board, &rows)),
        Err(message) => Err(GameError::StoreUnavailable(message)),
    }
}

/// The leaderboard of best scores for what reading the table of practice
/// rounds came to.
///
/// Of each player the rows with the most right answers are on the board;
/// they stand by more right answers, then by less time, then as they stand
/// in the table, and the board ends after a hundred lines. Where the table
/// could not be read the reply is that failure and no line at all.
pub fn get_leaderboard(stored: Result<Vec<RankEntry>, String>) -> (reply: Result<
    Vec<RankEntry>,
    GameError,
>)
    ensures
        reply_view(reply) == board_reply(Board::BestScores, stored_view(stored)),
        reply is Err ==> reply->Err_0 is StoreUnavailable,
        reply matches Ok(lines) ==> lines.len() <= BOARD_LENGTH && in_order(
            Board::BestScores,
            lines.deep_view(),
        ),
{
    board_for(Board::BestScores, stored)
}

/// The leaderboard of the fastest races for what reading the table of
/// completed races came to.
///
/// Of each player the rows with the least time are on the board; they stand
/// by less time, then as they stand in the table, and the board ends after
/// a hundred lines. Where the table could not be read the reply is that
/// failure and no line at all.
pub fn get_race_leaderboard(stored: Result<Vec<RankEntry>, String>) -> (reply: Result<
    Vec<RankEntry>,
    GameError,
>)
    ensures
        reply_view(reply) == board_reply(Board::FastestRaces, stored_view(stored)),
        reply is Err ==> reply->Err_0 is StoreUnavailable,
        reply matches Ok(lines) ==> lines.len() <= BOARD_LENGTH && in_order(
            Board::FastestRaces,
            lines.deep_view(),
        ),
{
    board_for(Board::FastestRaces, stored)
}

} // verus!
