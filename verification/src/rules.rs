//! The rules of a move, stated over a board of mathematical integers.
//!
//! A board is a sequence of fourteen pit counts. Index 0 is player two's goal
//! and index 7 is player one's goal; pits 1 to 6 belong to player one and pits
//! 8 to 13 to player two. Stones travel towards higher indices and wrap round.

use vstd::prelude::*;

verus! {

/// A sequence is a board when it has fourteen pits and none holds a negative count.
pub open spec fn is_board(pits: Seq<int>) -> bool {
    &&& pits.len() == 14
    &&& forall|i: int| 0 <= i < 14 ==> #[trigger] pits[i] >= 0
}

/// The goal pit of the given player.
pub open spec fn own_goal(player_one: bool) -> int {
    if player_one { 7 } else { 0 }
}

/// The goal pit of the given player's opponent.
pub open spec fn opponent_goal(player_one: bool) -> int {
    if player_one { 0 } else { 7 }
}

/// Whether `pit` is one of the given player's six ordinary pits.
pub open spec fn on_side(player_one: bool, pit: int) -> bool {
    if player_one { 1 <= pit <= 6 } else { 8 <= pit <= 13 }
}

/// The pit that faces `pit` across the board.
pub open spec fn opposite(pit: int) -> int {
    14 - pit
}

/// All stones on the board.
pub open spec fn total(pits: Seq<int>) -> int {
    pits[0] + pits[1] + pits[2] + pits[3] + pits[4] + pits[5] + pits[6] + pits[7] + pits[8]
        + pits[9] + pits[10] + pits[11] + pits[12] + pits[13]
}

/// The stones in the given player's six ordinary pits.
pub open spec fn side_total(pits: Seq<int>, player_one: bool) -> int {
    if player_one {
        pits[1] + pits[2] + pits[3] + pits[4] + pits[5] + pits[6]
    } else {
        pits[8] + pits[9] + pits[10] + pits[11] + pits[12] + pits[13]
    }
}

/// How many steps forward `pit` lies from `from`, counting every pit: 1 for the
/// next pit, 14 for `from` itself.
pub open spec fn steps_ahead(from: int, pit: int) -> int {
    if pit > from { pit - from } else { pit - from + 14 }
}

/// The pit that lies `steps` steps forward of `from`, for at most fourteen steps.
pub open spec fn pit_ahead(from: int, steps: int) -> int {
    if from + steps >= 14 { from + steps - 14 } else { from + steps }
}

/// The place of `pit` in the round that starts after `from` and leaves out
/// `skip`: 1 for the first pit to receive a stone, 13 for the last.
pub open spec fn sowing_rank(from: int, skip: int, pit: int) -> int {
    if steps_ahead(from, skip) < steps_ahead(from, pit) {
        steps_ahead(from, pit) - 1
    } else {
        steps_ahead(from, pit)
    }
}

/// The stones that `pit` receives when `stones` stones are sown one by one,
/// starting after `from` and never into `skip`: one for every full round of
/// thirteen pits, and one more if the last, partial round reaches it.
#[verifier::opaque]
pub open spec fn stones_received(stones: int, from: int, skip: int, pit: int) -> int {
    if pit == skip {
        0
    } else {
        (stones + 13 - sowing_rank(from, skip, pit)) / 13
    }
}

/// The pit whose place in the round is `rank`: the inverse of `sowing_rank`.
pub open spec fn pit_of_rank(from: int, skip: int, rank: int) -> int {
    if rank >= steps_ahead(from, skip) {
        pit_ahead(from, rank + 1)
    } else {
        pit_ahead(from, rank)
    }
}

/// The pit that receives the last of `stones` stones sown after `from`, never
/// into `skip`. With no stone to sow it is `from` itself.
#[verifier::opaque]
pub open spec fn landing_pit(stones: int, from: int, skip: int) -> int {
    if stones <= 0 {
        from
    } else {
        pit_of_rank(from, skip, (stones - 1) % 13 + 1)
    }
}

/// The pit that follows `pit` in sowing order when `skip` is left out.
pub open spec fn next_pit(pit: int, skip: int) -> int {
    if pit_ahead(pit, 1) == skip {
        pit_ahead(pit, 2)
    } else {
        pit_ahead(pit, 1)
    }
}

/// A pit of rank `rank` gets one stone per full round, and one more when the
/// stones left over reach its rank.
proof fn lemma_share_by_rank(stones: int, rank: int)
    requires
        0 <= stones,
        1 <= rank <= 13,
    ensures
        (stones + 13 - rank) / 13 == stones / 13 + if rank <= stones % 13 {
            1int
        } else {
            0int
        },
{
}

/// Every pit but the one left out has a rank from 1 to 13, and is the pit
/// of that rank.
proof fn lemma_rank_of_pit(from: int, skip: int, pit: int)
    requires
        0 <= from < 14,
        0 <= skip < 14,
        0 <= pit < 14,
        pit != skip,
    ensures
        1 <= sowing_rank(from, skip, pit) <= 13,
        pit_of_rank(from, skip, sowing_rank(from, skip, pit)) == pit,
{
}

/// Every rank from 1 to 13 is the rank of one pit on the board, which is not
/// the pit left out.
proof fn lemma_pit_of_rank(from: int, skip: int, rank: int)
    requires
        0 <= from < 14,
        0 <= skip < 14,
        1 <= rank <= 13,
    ensures
        0 <= pit_of_rank(from, skip, rank) < 14,
        pit_of_rank(from, skip, rank) != skip,
        sowing_rank(from, skip, pit_of_rank(from, skip, rank)) == rank,
{
}

/// In sowing order the pit of the first rank follows the pit sown from, and
/// after the pit of each rank comes the pit of the next, the first following
/// the thirteenth.
proof fn lemma_next_rank(from: int, skip: int, rank: int)
    requires
        0 <= from < 14,
        0 <= skip < 14,
        1 <= rank <= 13,
    ensures
        next_pit(from, skip) == pit_of_rank(from, skip, 1),
        next_pit(pit_of_rank(from, skip, rank), skip) == pit_of_rank(
            from,
            skip,
            if rank == 13 {
                1
            } else {
                rank + 1
            },
        ),
{
}

/// Sowing one stone more puts it into the pit that follows the previous landing
/// pit, and changes no other pit's share.
pub proof fn lemma_sow_one_more(stones: int, from: int, skip: int)
    requires
        0 <= stones,
        0 <= from < 14,
        0 <= skip < 14,
    ensures
        landing_pit(stones + 1, from, skip) == next_pit(landing_pit(stones, from, skip), skip),
        0 <= landing_pit(stones + 1, from, skip) < 14,
        landing_pit(stones + 1, from, skip) != skip,
        forall|pit: int|
            0 <= pit < 14 ==> #[trigger] stones_received(stones + 1, from, skip, pit)
                == stones_received(stones, from, skip, pit) + if pit == landing_pit(
                stones + 1,
                from,
                skip,
            ) {
                1int
            } else {
                0int
            },
{
    reveal(landing_pit);
    let left_over = stones % 13;
    let last = landing_pit(stones + 1, from, skip);
    assert(last == pit_of_rank(from, skip, left_over + 1));
    lemma_pit_of_rank(from, skip, left_over + 1);
    if stones == 0 {
        lemma_next_rank(from, skip, 1);
    } else {
        let rank_before = if left_over == 0 {
            13int
        } else {
            left_over
        };
        assert((stones - 1) % 13 + 1 == rank_before);
        lemma_next_rank(from, skip, rank_before);
    }
    assert forall|pit: int| 0 <= pit < 14 implies #[trigger] stones_received(
        stones + 1,
        from,
        skip,
        pit,
    ) == stones_received(stones, from, skip, pit) + if pit == last {
        1int
    } else {
        0int
    } by {
        reveal(stones_received);
        if pit != skip {
            let rank = sowing_rank(from, skip, pit);
            lemma_rank_of_pit(from, skip, pit);
            lemma_share_by_rank(stones, rank);
            lemma_share_by_rank(stones + 1, rank);
        }
    }
}

/// The board after pit `from` has been emptied and the first `stones` of its
/// stones have been sown one by one into the pits that follow it, never into
/// `skip`.
pub open spec fn partly_sown(pits: Seq<int>, from: int, skip: int, stones: int) -> Seq<int> {
    Seq::new(
        14,
        |i: int|
            (if i == from {
                0
            } else {
                pits[i]
            }) + stones_received(stones, from, skip, i),
    )
}

/// The board after all stones of pit `from` have been lifted and sown one by
/// one into the pits that follow it, never into `skip`.
pub open spec fn sown(pits: Seq<int>, from: int, skip: int) -> Seq<int> {
    partly_sown(pits, from, skip, pits[from])
}

/// Whether a stone that lands in `last` on `board` captures for the given
/// player: the pit is one of the player's own, the stone is alone in it, and
/// the pit across the board is not empty.
pub open spec fn captures(board: Seq<int>, player_one: bool, last: int) -> bool {
    &&& on_side(player_one, last)
    &&& board[last] == 1
    &&& board[opposite(last)] > 0
}

/// The board after the stone in `last` and the stones across from it have gone
/// to the given player's goal.
pub open spec fn captured(board: Seq<int>, player_one: bool, last: int) -> Seq<int> {
    board.update(
        own_goal(player_one),
        board[own_goal(player_one)] + board[opposite(last)] + 1,
    ).update(last, 0).update(opposite(last), 0)
}

/// Whether all six ordinary pits of the given player are empty.
pub open spec fn side_empty(pits: Seq<int>, player_one: bool) -> bool {
    forall|i: int| on_side(player_one, i) ==> #[trigger] pits[i] == 0
}

/// The board after each side's remaining stones have gone to that side's goal.
pub open spec fn swept(pits: Seq<int>) -> Seq<int> {
    Seq::new(
        14,
        |i: int|
            if i == 0 {
                pits[0] + side_total(pits, false)
            } else if i == 7 {
                pits[7] + side_total(pits, true)
            } else {
                0
            },
    )
}

/// The board with which every game begins.
pub open spec fn initial_board() -> Seq<int> {
    Seq::new(
        14,
        |i: int|
            if i == 0 || i == 7 {
                0int
            } else {
                4int
            },
    )
}

/// No pit receives a stone when none is sown.
pub proof fn lemma_nothing_sown(from: int, skip: int, pit: int)
    requires
        0 <= from < 14,
        0 <= skip < 14,
        0 <= pit < 14,
    ensures
        stones_received(0, from, skip, pit) == 0,
{
    reveal(stones_received);
}

/// No pit receives fewer than no stones, and the landing pit receives at least one.
pub proof fn lemma_landing_pit_receives(stones: int, from: int, skip: int, pit: int)
    requires
        0 <= stones,
        0 <= from < 14,
        0 <= skip < 14,
        0 <= pit < 14,
    ensures
        stones_received(stones, from, skip, pit) >= 0,
        stones > 0 && pit == landing_pit(stones, from, skip) ==> stones_received(
            stones,
            from,
            skip,
            pit,
        ) >= 1,
{
    reveal(stones_received);
    if stones > 0 {
        lemma_sow_one_more(stones - 1, from, skip);
        assert(stones_received(stones - 1 + 1, from, skip, pit) >= stones_received(
            stones - 1,
            from,
            skip,
            pit,
        ));
    }
}

/// The last stone lands on the board, and never in the pit that is left out.
pub proof fn lemma_landing_in_range(stones: int, from: int, skip: int)
    requires
        0 <= from < 14,
        0 <= skip < 14,
    ensures
        0 <= landing_pit(stones, from, skip) < 14,
        stones > 0 ==> landing_pit(stones, from, skip) != skip,
{
    if stones > 0 {
        lemma_sow_one_more(stones - 1, from, skip);
    } else {
        reveal(landing_pit);
    }
}

/// Before the first stone is sown the chosen pit is empty, the other pits are
/// as they were, and the hand is over the chosen pit.
pub proof fn lemma_before_sowing(pits: Seq<int>, from: int, skip: int)
    requires
        is_board(pits),
        0 <= from < 14,
        0 <= skip < 14,
    ensures
        landing_pit(0, from, skip) == from,
        partly_sown(pits, from, skip, 0) == pits.update(from, 0),
{
    reveal(landing_pit);
    assert forall|i: int| 0 <= i < 14 implies stones_received(0, from, skip, i) == 0 by {
        lemma_nothing_sown(from, skip, i);
    }
    assert(partly_sown(pits, from, skip, 0) =~= pits.update(from, 0));
}

/// Every stone that is sown lands in some pit: the first `stones` stones add
/// `stones` to the board, less what was lifted.
pub proof fn lemma_partly_sown_total(pits: Seq<int>, from: int, skip: int, stones: int)
    requires
        is_board(pits),
        0 <= from < 14,
        0 <= skip < 14,
        0 <= stones,
    ensures
        is_board(partly_sown(pits, from, skip, stones)),
        total(partly_sown(pits, from, skip, stones)) == total(pits) - pits[from] + stones,
    decreases stones,
{
    if stones == 0 {
        assert forall|i: int| 0 <= i < 14 implies stones_received(0, from, skip, i) == 0 by {
            lemma_nothing_sown(from, skip, i);
        }
    } else {
        lemma_partly_sown_total(pits, from, skip, stones - 1);
        lemma_sow_one_more(stones - 1, from, skip);
    }
}

/// Sowing moves stones and neither makes nor loses any.
pub proof fn lemma_sown_conserves(pits: Seq<int>, from: int, skip: int)
    requires
        is_board(pits),
        0 <= from < 14,
        0 <= skip < 14,
    ensures
        is_board(sown(pits, from, skip)),
        total(sown(pits, from, skip)) == total(pits),
{
    lemma_partly_sown_total(pits, from, skip, pits[from]);
}

/// A capture moves stones and neither makes nor loses any, and the goal that
/// takes them holds no more than the board did.
pub proof fn lemma_captured_conserves(board: Seq<int>, player_one: bool, last: int)
    requires
        is_board(board),
        captures(board, player_one, last),
    ensures
        is_board(captured(board, player_one, last)),
        total(captured(board, player_one, last)) == total(board),
        board[own_goal(player_one)] + board[opposite(last)] + 1 <= total(board),
{
}

/// The final sweep moves stones and neither makes nor loses any.
pub proof fn lemma_swept_conserves(pits: Seq<int>)
    requires
        is_board(pits),
    ensures
        is_board(swept(pits)),
        total(swept(pits)) == total(pits),
{
}

/// No pit holds more stones than the board, and no ordinary pit more than its side.
pub proof fn lemma_pit_within_total(pits: Seq<int>, pit: int)
    requires
        is_board(pits),
        0 <= pit < 14,
    ensures
        pits[pit] <= total(pits),
        forall|player_one: bool|
            on_side(player_one, pit) ==> pits[pit] <= #[trigger] side_total(pits, player_one),
        forall|player_one: bool| 0 <= #[trigger] side_total(pits, player_one) <= total(pits),
{
}

/// Emptying a pit takes its stones from the board, and from its side if it is
/// an ordinary pit.
pub proof fn lemma_emptied_pit(pits: Seq<int>, pit: int)
    requires
        is_board(pits),
        0 <= pit < 14,
    ensures
        is_board(pits.update(pit, 0)),
        total(pits.update(pit, 0)) == total(pits) - pits[pit],
        forall|player_one: bool|
            #[trigger] side_total(pits.update(pit, 0), player_one) == side_total(pits, player_one)
                - if on_side(player_one, pit) {
                pits[pit]
            } else {
                0
            },
{
}

/// The stone that follows the first `done` stones goes into the pit after
/// their landing pit and nowhere else, and the board can hold it.
pub proof fn lemma_sow_next(pits: Seq<int>, from: int, skip: int, done: int)
    requires
        is_board(pits),
        0 <= from < 14,
        0 <= skip < 14,
        0 <= done,
    ensures
        ({
            let next = next_pit(landing_pit(done, from, skip), skip);
            let before = partly_sown(pits, from, skip, done);
            &&& 0 <= next < 14
            &&& next == landing_pit(done + 1, from, skip)
            &&& is_board(before)
            &&& partly_sown(pits, from, skip, done + 1) == before.update(next, before[next] + 1)
            &&& done < pits[from] ==> before[next] + 1 <= total(pits)
        }),
{
    let next = next_pit(landing_pit(done, from, skip), skip);
    let before = partly_sown(pits, from, skip, done);
    let after = partly_sown(pits, from, skip, done + 1);
    lemma_sow_one_more(done, from, skip);
    lemma_partly_sown_total(pits, from, skip, done);
    lemma_partly_sown_total(pits, from, skip, done + 1);
    assert(after =~= before.update(next, before[next] + 1));
    lemma_pit_within_total(after, next);
}

/// The board and the place of the hand after pit `from` has been emptied
/// and `stones` stones have been dropped one at a time, each into the pit that
/// follows the one before in sowing order.
pub open spec fn walked(pits: Seq<int>, from: int, skip: int, stones: int) -> (Seq<int>, int)
    decreases stones,
{
    if stones <= 0 {
        (pits.update(from, 0), from)
    } else {
        let (board, hand) = walked(pits, from, skip, stones - 1);
        let next = next_pit(hand, skip);
        (board.update(next, board[next] + 1), next)
    }
}

/// Sowing is a walk round the board: dropping the stones one at a time gives
/// the board and the landing pit that `partly_sown` and `landing_pit` state
/// in closed form.
pub proof fn lemma_sowing_is_a_walk(pits: Seq<int>, from: int, skip: int, stones: int)
    requires
        is_board(pits),
        0 <= from < 14,
        0 <= skip < 14,
        0 <= stones,
    ensures
        walked(pits, from, skip, stones) == (
            partly_sown(pits, from, skip, stones),
            landing_pit(stones, from, skip),
        ),
    decreases stones,
{
    if stones == 0 {
        lemma_before_sowing(pits, from, skip);
    } else {
        lemma_sowing_is_a_walk(pits, from, skip, stones - 1);
        lemma_sow_next(pits, from, skip, stones - 1);
    }
}

} // verus!
