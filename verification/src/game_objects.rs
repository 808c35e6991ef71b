//! One game of Mancala: its players, its board and whose turn it is.

use vstd::prelude::*;
use crate::constants::{BOARD_LENGTH, SLOTS, STARTING_STONES, TOTAL_STONES};
use crate::rules::{
    captured, captures, initial_board, is_board, landing_pit, lemma_before_sowing,
    lemma_captured_conserves, lemma_emptied_pit, lemma_landing_in_range,
    lemma_landing_pit_receives, lemma_pit_within_total, lemma_sow_next, lemma_sown_conserves,
    lemma_swept_conserves, next_pit, on_side, opponent_goal, opposite, own_goal, partly_sown,
    side_empty, side_total, sown, swept, total,
};

verus! {

/// Why a move was refused.
#[derive(Debug, Clone, Copy, PartialEq, Eq, Structural)]
pub enum MoveError {
    /// The pit is not an ordinary pit of the side to move, or it is empty.
    InvalidPit,
    /// The game has ended.
    GameAlreadyOver,
}

/// One game: who plays it, what lies in each pit, and how far it has come.
///
/// A player slot that holds 0 is free. The board has its pits in the order in
/// which stones travel: index 0 is player two's goal, 1 to 6 are player one's
/// pits, 7 is player one's goal and 8 to 13 are player two's pits.
#[derive(Debug, PartialEq)]
pub struct GameState {
    pub player_one: u32,
    pub player_two: u32,
    pub game_name: String,
    pub game_id: u32,
    pub game_board: [u8; BOARD_LENGTH],
    pub player_one_goal_slot: usize,
    pub player_two_goal_slot: usize,
    pub player_one_turn: bool,
    pub active: bool,
    pub game_over: bool,
}

/// What a `GameState` stands for: the same fields, with the board as a
/// sequence of mathematical integers.
pub struct GameView {
    pub player_one: u32,
    pub player_two: u32,
    pub game_name: Seq<char>,
    pub game_id: u32,
    pub pits: Seq<int>,
    pub player_one_goal_slot: int,
    pub player_two_goal_slot: int,
    pub player_one_turn: bool,
    pub active: bool,
    pub game_over: bool,
}

impl View for GameState {
    type V = GameView;

    open spec fn view(&self) -> GameView {
        GameView {
            player_one: self.player_one,
            player_two: self.player_two,
            game_name: self.game_name@,
            game_id: self.game_id,
            pits: self.game_board@.map_values(|stones: u8| stones as int),
            player_one_goal_slot: self.player_one_goal_slot as int,
            player_two_goal_slot: self.player_two_goal_slot as int,
            player_one_turn: self.player_one_turn,
            active: self.active,
            game_over: self.game_over,
        }
    }
}

impl GameView {
    /// A game that moves can be made in: the goal pits are where the rules
    /// put them, and the stones on the board can be counted in a `u8`.
    pub open spec fn playable(self) -> bool {
        &&& self.player_one_goal_slot == 7
        &&& self.player_two_goal_slot == 0
        &&& is_board(self.pits)
        &&& total(self.pits) <= 255
    }

    /// The game after `player_id` has taken the first free player slot. With
    /// both slots taken nothing changes. The game is active once both slots
    /// hold a player.
    pub open spec fn joined(self, player_id: u32) -> GameView {
        if self.player_one == 0 {
            GameView {
                player_one: player_id,
                active: self.active || (player_id != 0 && self.player_two != 0),
                ..self
            }
        } else if self.player_two == 0 {
            GameView { player_two: player_id, active: self.active || player_id != 0, ..self }
        } else {
            self
        }
    }

    /// The game after `player_id` has given up the slot it holds, the first
    /// if it holds both. With a slot free the board is set up anew and the game
    /// is not active.
    pub open spec fn left(self, player_id: u32) -> GameView {
        let one = if self.player_one == player_id {
            0
        } else {
            self.player_one
        };
        let two = if self.player_one != player_id && self.player_two == player_id {
            0
        } else {
            self.player_two
        };
        if one == 0 || two == 0 {
            GameView {
                player_one: one,
                player_two: two,
                pits: initial_board(),
                active: false,
                ..self
            }
        } else {
            self
        }
    }

    /// The pit that the side to move never sows into.
    pub open spec fn skipped(self) -> int {
        opponent_goal(self.player_one_turn)
    }

    /// The board once the side to move has lifted the stones of `pit` and sown them.
    pub open spec fn sown(self, pit: int) -> Seq<int> {
        sown(self.pits, pit, self.skipped())
    }

    /// The pit in which the last stone sown from `pit` lands.
    pub open spec fn landing(self, pit: int) -> int {
        landing_pit(self.pits[pit], pit, self.skipped())
    }

    /// Whether the last stone sown from `pit` lands in the mover's own goal.
    pub open spec fn lands_in_goal(self, pit: int) -> bool {
        self.landing(pit) == own_goal(self.player_one_turn)
    }

    /// Whether the last stone sown from `pit` captures.
    pub open spec fn move_captures(self, pit: int) -> bool {
        !self.lands_in_goal(pit) && captures(
            self.sown(pit),
            self.player_one_turn,
            self.landing(pit),
        )
    }

    /// The board after sowing from `pit` and the capture that may follow.
    pub open spec fn settled(self, pit: int) -> Seq<int> {
        if self.move_captures(pit) {
            captured(self.sown(pit), self.player_one_turn, self.landing(pit))
        } else {
            self.sown(pit)
        }
    }

    /// Whose turn it is after sowing from `pit`: the mover's again after a
    /// last stone in the mover's goal or a capture, else the opponent's.
    pub open spec fn turn_after(self, pit: int) -> bool {
        if self.lands_in_goal(pit) || self.move_captures(pit) {
            self.player_one_turn
        } else {
            !self.player_one_turn
        }
    }

    /// Whether sowing from `pit` ends the game: the side to move next has no
    /// stone in its ordinary pits.
    pub open spec fn ends_game(self, pit: int) -> bool {
        side_empty(self.settled(pit), self.turn_after(pit))
    }

    /// The game after the side to move has sown from `pit`, whoever owns the
    /// pit: sowing, capture, change of turn, and the sweep that ends the game.
    pub open spec fn played(self, pit: int) -> GameView {
        if self.ends_game(pit) {
            GameView {
                pits: swept(self.settled(pit)),
                player_one_turn: self.turn_after(pit),
                active: false,
                game_over: true,
                ..self
            }
        } else {
            GameView { pits: self.settled(pit), player_one_turn: self.turn_after(pit), ..self }
        }
    }

    /// The game after the side to move has been handed the stones of `pit`
    /// without a check of whose pit it is: played, unless the game has ended,
    /// there is no such pit, or the pit is empty, in which cases nothing
    /// changes.
    pub open spec fn sown_from(self, pit: int) -> GameView {
        if !self.game_over && 0 <= pit < 14 && self.pits[pit] > 0 {
            self.played(pit)
        } else {
            self
        }
    }

    /// Whether the rules accept a move from `pit`, and if not, why. A game
    /// that has ended accepts none; otherwise the pit must be an ordinary pit
    /// of the side to move and hold a stone.
    pub open spec fn move_check(self, pit: int) -> Result<(), MoveError> {
        if self.game_over {
            Err(MoveError::GameAlreadyOver)
        } else if !on_side(self.player_one_turn, pit) || self.pits[pit] == 0 {
            Err(MoveError::InvalidPit)
        } else {
            Ok(())
        }
    }

    /// The game after a move from `pit` has been asked for: played if the
    /// rules accept it, unchanged if they do not.
    pub open spec fn after_move(self, pit: int) -> GameView {
        if self.move_check(pit) is Ok {
            self.played(pit)
        } else {
            self
        }
    }

    /// The game as `GameState::new_empty` makes it: nobody plays in it and
    /// its board is bare.
    pub open spec fn placeholder() -> GameView {
        GameView {
            player_one: 0,
            player_two: 0,
            game_name: "empty"@,
            game_id: 0,
            pits: Seq::new(14, |i: int| 0int),
            player_one_goal_slot: 0,
            player_two_goal_slot: 0,
            player_one_turn: false,
            active: false,
            game_over: false,
        }
    }

    /// The game as `GameState::new` makes it.
    pub open spec fn fresh(p_one: u32, name: Seq<char>, id: u32) -> GameView {
        GameView {
            player_one: p_one,
            player_two: 0,
            game_name: name,
            game_id: id,
            pits: initial_board(),
            player_one_goal_slot: 7,
            player_two_goal_slot: 0,
            player_one_turn: true,
            active: false,
            game_over: false,
        }
    }
}

/// What can happen to a game.
pub enum GameEvent {
    /// A player takes a free slot.
    Join(u32),
    /// A player gives up its slot.
    Leave(u32),
    /// A move is asked for and judged by the rules.
    Move(int),
    /// The stones of a pit are sown without a check of whose pit it is.
    Sow(int),
    /// Each side's remaining stones go to that side's goal.
    Sweep,
    /// The game is marked as ended.
    End,
}

impl GameView {
    /// The game after `event`.
    pub open spec fn after(self, event: GameEvent) -> GameView {
        match event {
            GameEvent::Join(player_id) => self.joined(player_id),
            GameEvent::Leave(player_id) => self.left(player_id),
            GameEvent::Move(pit) => self.after_move(pit),
            GameEvent::Sow(pit) => self.sown_from(pit),
            GameEvent::Sweep => GameView { pits: swept(self.pits), ..self },
            GameEvent::End => GameView { game_over: true, ..self },
        }
    }

    /// The game after each of `events` in turn.
    pub open spec fn after_all(self, events: Seq<GameEvent>) -> GameView
        decreases events.len(),
    {
        if events.len() == 0 {
            self
        } else {
            self.after_all(events.drop_last()).after(events.last())
        }
    }
}

/// Stone conservation, step by step. Sowing, capturing and the final sweep
/// only move stones, so whatever happens to a game leaves the number of
/// stones on its board as it was. The one exception is a player who leaves:
/// the board is then set up anew, with the 48 stones of a new game.
pub proof fn lemma_stones_are_conserved(game: GameView, event: GameEvent)
    requires
        game.playable(),
    ensures
        game.after(event).playable(),
        total(game.after(event).pits) == total(game.pits) || (event is Leave && total(
            game.after(event).pits,
        ) == TOTAL_STONES),
{
    match event {
        GameEvent::Move(pit) => {
            if game.move_check(pit) is Ok {
                lemma_played_conserves(game, pit);
            }
        },
        GameEvent::Sow(pit) => {
            if 0 <= pit < 14 {
                lemma_played_conserves(game, pit);
            }
        },
        GameEvent::Sweep => {
            lemma_swept_conserves(game.pits);
        },
        _ => {},
    }
}

/// Sowing from a pit, with the capture and the sweep that may follow, leaves
/// the number of stones on the board as it was.
proof fn lemma_played_conserves(game: GameView, pit: int)
    requires
        game.playable(),
        0 <= pit < 14,
    ensures
        game.played(pit).playable(),
        total(game.played(pit).pits) == total(game.pits),
{
    lemma_sown_conserves(game.pits, pit, game.skipped());
    lemma_landing_in_range(game.pits[pit], pit, game.skipped());
    if game.move_captures(pit) {
        lemma_captured_conserves(game.sown(pit), game.player_one_turn, game.landing(pit));
    }
    lemma_swept_conserves(game.settled(pit));
}

/// Stone conservation. A new game holds 48 stones, and so does every game
/// that comes of it, whatever happens to it.
pub proof fn lemma_every_game_holds_all_stones(
    p_one: u32,
    name: Seq<char>,
    id: u32,
    events: Seq<GameEvent>,
)
    ensures
        GameView::fresh(p_one, name, id).after_all(events).playable(),
        total(GameView::fresh(p_one, name, id).after_all(events).pits) == TOTAL_STONES,
    decreases events.len(),
{
    let game = GameView::fresh(p_one, name, id);
    if events.len() > 0 {
        lemma_every_game_holds_all_stones(p_one, name, id, events.drop_last());
        lemma_stones_are_conserved(game.after_all(events.drop_last()), events.last());
    }
}

/// A move that the rules accept comes from an ordinary pit of the side to
/// move that holds a stone, and is played: `after_move` and `sown_from` are
/// then both `played`, of which the laws below speak.
pub proof fn lemma_accepted_move_is_played(game: GameView, pit: int)
    requires
        game.playable(),
        game.move_check(pit) is Ok,
    ensures
        !game.game_over,
        on_side(game.player_one_turn, pit),
        game.pits[pit] > 0,
        game.after_move(pit) == game.played(pit),
        game.sown_from(pit) == game.played(pit),
{
}

/// Turn alternation. A move whose last stone lands in the mover's own goal, or
/// captures, leaves the turn with the mover; every other move passes it on.
pub proof fn lemma_turn_alternation(game: GameView, pit: int)
    ensures
        game.lands_in_goal(pit) || game.move_captures(pit) ==> game.played(pit).player_one_turn
            == game.player_one_turn,
        !game.lands_in_goal(pit) && !game.move_captures(pit) ==> game.played(pit).player_one_turn
            != game.player_one_turn,
{
}

/// Capture correctness. When the last stone lands alone in an ordinary pit of
/// the mover and the pit across from it holds stones, those stones and the
/// last stone go to the mover's goal and both pits are left empty; every other
/// pit stays as the sowing left it. A last stone that lands in a pit that held
/// stones before the move, other than the pit moved from, never captures.
pub proof fn lemma_capture_is_correct(game: GameView, pit: int)
    requires
        game.playable(),
        0 <= pit < 14,
        game.pits[pit] > 0,
    ensures
        ({
            let last = game.landing(pit);
            let goal = own_goal(game.player_one_turn);
            let sown = game.sown(pit);
            let across = opposite(last);
            &&& 0 <= last < 14
            &&& on_side(game.player_one_turn, last) && sown[last] == 1 && sown[across] > 0 ==> {
                &&& game.move_captures(pit)
                &&& game.settled(pit)[goal] == sown[goal] + sown[across] + 1
                &&& game.settled(pit)[last] == 0
                &&& game.settled(pit)[across] == 0
                &&& forall|i: int|
                    0 <= i < 14 && i != goal && i != last && i != across
                        ==> #[trigger] game.settled(pit)[i] == sown[i]
            }
            &&& last != pit && game.pits[last] > 0 ==> {
                &&& !game.move_captures(pit)
                &&& game.settled(pit) == sown
            }
        }),
{
    let last = game.landing(pit);
    lemma_landing_in_range(game.pits[pit], pit, game.skipped());
    lemma_landing_pit_receives(game.pits[pit], pit, game.skipped(), last);
}

/// Termination. When a move leaves the side that moves next without a stone in
/// its ordinary pits, the game is over in the same step: every ordinary pit is
/// empty, each goal holds what it held plus what was left on its side, the
/// game is not active, and every later move is refused and changes nothing.
pub proof fn lemma_game_ends(game: GameView, pit: int, later_pit: int)
    requires
        game.playable(),
        0 <= pit < 14,
        game.ends_game(pit),
    ensures
        ({
            let end = game.played(pit);
            let left = game.settled(pit);
            &&& end.game_over
            &&& !end.active
            &&& end.pits == swept(left)
            &&& end.pits[7] == left[7] + side_total(left, true)
            &&& end.pits[0] == left[0] + side_total(left, false)
            &&& forall|i: int| 1 <= i <= 6 || 8 <= i <= 13 ==> #[trigger] end.pits[i] == 0
            &&& end.move_check(later_pit) == Err::<(), MoveError>(MoveError::GameAlreadyOver)
            &&& end.after_move(later_pit) == end
        }),
{
}

/// A game that has ended stays ended, whatever is asked of it.
pub proof fn lemma_game_stays_over(game: GameView, pit: int, player_id: u32)
    requires
        game.game_over,
    ensures
        game.after_move(pit) == game,
        game.sown_from(pit) == game,
        game.joined(player_id).game_over,
        game.left(player_id).game_over,
{
}

impl GameState {
    /// Whether moves can be made in this game: see `GameView::playable`.
    pub open spec fn wf(&self) -> bool {
        self@.playable()
    }

    /// A new game called `name`, with the id `id`, for `p_one` as player one.
    /// It waits for a second player; every ordinary pit holds four stones and
    /// player one is to move.
    pub fn new(p_one: u32, name: String, id: u32) -> (game: GameState)
        ensures
            game@ == GameView::fresh(p_one, name@, id),
            game.wf(),
    {
        let mut init_game_board = [STARTING_STONES; BOARD_LENGTH];
        init_game_board[SLOTS] = 0;
        init_game_board[0] = 0;
        let game = GameState {
            player_one: p_one,
            player_two: 0,
            game_name: name,
            game_id: id,
            game_board: init_game_board,
            player_one_goal_slot: SLOTS,
            player_two_goal_slot: 0,
            player_one_turn: true,
            active: false,
            game_over: false,
        };
        assert(game@.pits =~= initial_board());
        game
    }

    /// Creates an empty game: a value to send where a message must carry a
    /// game and there is none. No moves can be made in it.
    pub fn new_empty() -> (game: GameState)
        ensures
            game@ == GameView::placeholder(),
    {
        let game = GameState {
            player_one: 0,
            player_two: 0,
            game_name: String::from_str("empty"),
            game_id: 0,
            game_board: [0; BOARD_LENGTH],
            player_one_goal_slot: 0,
            player_two_goal_slot: 0,
            player_one_turn: false,
            active: false,
            game_over: false,
        };
        assert(game@.pits =~= Seq::new(14, |i: int| 0int));
        game
    }

    /// Seats `player_id` in the first free player slot, if there is one.
    pub fn add_new_player(&mut self, player_id: u32)
        ensures
            final(self)@ == old(self)@.joined(player_id),
    {
        if self.player_one == 0 {
            self.player_one = player_id;
        } else if self.player_two == 0 {
            self.player_two = player_id;
        } else {
            return ;
        }
        if self.player_one != 0 && self.player_two != 0 {
            self.active = true;
        }
    }

    /// Frees the slot that `player_id` holds. A game with a free slot starts
    /// over: what was played so far is discarded.
    pub fn remove_player(&mut self, player_id: u32)
        ensures
            final(self)@ == old(self)@.left(player_id),
    {
        if self.player_one == player_id {
            self.player_one = 0;
        } else if self.player_two == player_id {
            self.player_two = 0;
        }
        if self.player_one == 0 || self.player_two == 0 {
            let mut init_game_board = [STARTING_STONES; BOARD_LENGTH];
            init_game_board[SLOTS] = 0;
            init_game_board[0] = 0;
            self.game_board = init_game_board;
            self.active = false;
            assert(self@.pits =~= initial_board());
        }
    }

    /// Sweeps the board at the end of a game: the stones left in the ordinary
    /// pits of each side go to that side's goal.
    pub fn collect_remaining_stones(&mut self)
        requires
            old(self).wf(),
        ensures
            final(self)@ == (GameView { pits: swept(old(self)@.pits), ..old(self)@ }),
            final(self).wf(),
            total(final(self)@.pits) == total(old(self)@.pits),
    {
        let side_one: u8 = self.clear_side(1);
        let side_two: u8 = self.clear_side(SLOTS + 1);
        let ghost before = self@.pits;
        proof {
            lemma_pit_within_total(old(self)@.pits, 0);
        }
        self.game_board[self.player_one_goal_slot] += side_one;
        self.game_board[self.player_two_goal_slot] += side_two;
        assert(self@.pits =~= before.update(7, before[7] + side_one).update(
            0,
            before[0] + side_two,
        ));
        assert(self@.pits =~= swept(old(self)@.pits));
    }

    /// Empties the six ordinary pits that begin at `first`, which is 1 for
    /// player one's side and 8 for player two's, and returns what they held.
    fn clear_side(&mut self, first: usize) -> (stones: u8)
        requires
            old(self).wf(),
            first == 1 || first == 8,
        ensures
            stones == side_total(old(self)@.pits, first == 1),
            final(self)@ == (GameView {
                pits: Seq::new(
                    14,
                    |i: int|
                        if first <= i < first + 6 {
                            0
                        } else {
                            old(self)@.pits[i]
                        },
                ),
                ..old(self)@
            }),
            final(self).wf(),
            total(final(self)@.pits) == total(old(self)@.pits) - stones,
    {
        let mut stones: u8 = 0;
        let mut slot: usize = first;
        while slot < first + SLOTS - 1
            invariant
                first == 1 || first == 8,
                first <= slot <= first + 6,
                old(self).wf(),
                self.wf(),
                self@ == (GameView { pits: self@.pits, ..old(self)@ }),
                forall|i: int|
                    0 <= i < 14 ==> #[trigger] self@.pits[i] == if first <= i < slot {
                        0
                    } else {
                        old(self)@.pits[i]
                    },
                stones + total(self@.pits) == total(old(self)@.pits),
                stones + side_total(self@.pits, first == 1) == side_total(
                    old(self)@.pits,
                    first == 1,
                ),
            decreases first + 6 - slot,
        {
            let ghost before = self@.pits;
            proof {
                lemma_pit_within_total(before, slot as int);
                lemma_emptied_pit(before, slot as int);
            }
            stones += self.game_board[slot];
            self.game_board[slot] = 0;
            assert(self@.pits =~= before.update(slot as int, 0));
            slot += 1;
        }
        assert(self@.pits =~= Seq::new(
            14,
            |i: int|
                if first <= i < first + 6 {
                    0
                } else {
                    old(self)@.pits[i]
                },
        ));
        stones
    }

    /// Whether the side to move has no stone in its ordinary pits.
    fn is_game_over(&self) -> (over: bool)
        requires
            self.wf(),
        ensures
            over == side_empty(self@.pits, self.player_one_turn),
    {
        let first: usize = if self.player_one_turn {
            1
        } else {
            self.player_one_goal_slot + 1
        };
        let mut slot: usize = first;
        while slot < first + SLOTS - 1
            invariant
                self.wf(),
                first == if self.player_one_turn {
                    1usize
                } else {
                    8usize
                },
                first <= slot <= first + 6,
                forall|i: int| first <= i < slot ==> #[trigger] self@.pits[i] == 0,
            decreases first + 6 - slot,
        {
            if self.game_board[slot] != 0 {
                assert(self@.pits[slot as int] != 0);
                assert(on_side(self.player_one_turn, slot as int));
                return false;
            }
            slot += 1;
        }
        true
    }

    /// The goal pit of the side to move, then the goal pit of its opponent.
    fn get_players_goal_slots(&self) -> (goals: (usize, usize))
        ensures
            goals == if self.player_one_turn {
                (self.player_one_goal_slot, self.player_two_goal_slot)
            } else {
                (self.player_two_goal_slot, self.player_one_goal_slot)
            },
    {
        if self.player_one_turn {
            (self.player_one_goal_slot, self.player_two_goal_slot)
        } else {
            (self.player_two_goal_slot, self.player_one_goal_slot)
        }
    }

    /// Adds `points_to_add` stones to the goal of the side to move.
    fn add_capture_points(&mut self, points_to_add: u8)
        requires
            old(self).wf(),
            old(self)@.pits[own_goal(old(self).player_one_turn)] + points_to_add <= 255,
        ensures
            final(self)@ == (GameView {
                pits: old(self)@.pits.update(
                    own_goal(old(self).player_one_turn),
                    old(self)@.pits[own_goal(old(self).player_one_turn)] + points_to_add,
                ),
                ..old(self)@
            }),
    {
        let ghost before = self@.pits;
        if self.player_one_turn {
            self.game_board[self.player_one_goal_slot] += points_to_add;
        } else {
            self.game_board[self.player_two_goal_slot] += points_to_add;
        }
        assert(self@.pits =~= before.update(
            own_goal(self.player_one_turn),
            before[own_goal(self.player_one_turn)] + points_to_add,
        ));
    }

    /// Captures, if the stone that has just landed in `cur_slot` does: when
    /// it lies alone in an ordinary pit of the side to move and the pit across
    /// the board holds stones, it goes to the mover's goal together with them.
    /// Returns whether it did.
    fn capture(&mut self, cur_slot: usize) -> (took: bool)
        requires
            old(self).wf(),
            cur_slot < BOARD_LENGTH,
        ensures
            took == captures(old(self)@.pits, old(self).player_one_turn, cur_slot as int),
            final(self)@ == if took {
                GameView {
                    pits: captured(old(self)@.pits, old(self).player_one_turn, cur_slot as int),
                    ..old(self)@
                }
            } else {
                old(self)@
            },
            final(self).wf(),
            total(final(self)@.pits) == total(old(self)@.pits),
    {
        if self.game_board[cur_slot] != 1 {
            return false;
        }
        let mut opposite_slot: usize = 0;
        if self.player_one_turn && cur_slot < SLOTS && cur_slot > 0 {
            opposite_slot = SLOTS + (SLOTS - cur_slot);
        } else if !self.player_one_turn && cur_slot > SLOTS {
            opposite_slot = SLOTS - (cur_slot - SLOTS);
        }
        if opposite_slot == 0 || self.game_board[opposite_slot] == 0 {
            return false;
        }
        let ghost before = self@.pits;
        proof {
            assert(opposite_slot == opposite(cur_slot as int));
            assert(captures(before, self.player_one_turn, cur_slot as int));
            lemma_captured_conserves(before, self.player_one_turn, cur_slot as int);
        }
        let points: u8 = self.game_board[opposite_slot] + 1;
        self.add_capture_points(points);
        self.game_board[cur_slot] = 0;
        self.game_board[opposite_slot] = 0;
        assert(self@.pits =~= captured(before, self.player_one_turn, cur_slot as int));
        true
    }

    /// Lifts the stones of `slot` and sows them one by one into the pits that
    /// follow, passing over the goal of the opponent of the side to move.
    /// Returns the pit in which the last stone landed.
    fn sow(&mut self, slot: usize) -> (last: usize)
        requires
            old(self).wf(),
            slot < BOARD_LENGTH,
        ensures
            final(self)@ == (GameView { pits: old(self)@.sown(slot as int), ..old(self)@ }),
            last == old(self)@.landing(slot as int),
            last < BOARD_LENGTH,
            final(self).wf(),
            total(final(self)@.pits) == total(old(self)@.pits),
    {
        let mut num_of_stones: u8 = self.game_board[slot];
        let goal_slots: (usize, usize) = self.get_players_goal_slots();
        let ghost from = slot as int;
        let ghost skip = goal_slots.1 as int;
        let ghost lifted = num_of_stones as int;
        self.game_board[slot] = 0;
        let mut cur_slot: usize = slot;
        proof {
            lemma_before_sowing(old(self)@.pits, from, skip);
            assert(self@.pits =~= old(self)@.pits.update(from, 0));
        }
        while num_of_stones > 0
            invariant
                old(self).wf(),
                0 <= from < 14,
                0 <= skip < 14,
                goal_slots.1 == skip,
                lifted == old(self)@.pits[from],
                0 <= num_of_stones <= lifted,
                cur_slot == landing_pit(lifted - num_of_stones, from, skip),
                cur_slot < BOARD_LENGTH,
                self@ == (GameView {
                    pits: partly_sown(old(self)@.pits, from, skip, lifted - num_of_stones),
                    ..old(self)@
                }),
            decreases num_of_stones,
        {
            let ghost before = self@.pits;
            proof {
                lemma_sow_next(old(self)@.pits, from, skip, lifted - num_of_stones);
            }
            cur_slot = next_slot(cur_slot, goal_slots.1);
            self.game_board[cur_slot] += 1;
            num_of_stones -= 1;
            assert(self@.pits =~= before.update(cur_slot as int, before[cur_slot as int] + 1));
        }
        proof {
            assert(partly_sown(old(self)@.pits, from, skip, lifted) =~= old(self)@.sown(from));
            lemma_sown_conserves(old(self)@.pits, from, skip);
        }
        cur_slot
    }

    /// Sows the stones of `slot_to_move` for the side to move, whoever owns
    /// the pit, and settles what follows: capture, change of turn, end of
    /// game. A game that has ended stays as it is, and so does a game in which
    /// `slot_to_move` is no pit or an empty one.
    ///
    /// This is the step that `apply_move` takes once it has accepted a move;
    /// called directly, it does not ask whose pit it is.
    pub fn make_move(&mut self, slot_to_move: usize)
        requires
            old(self).wf(),
        ensures
            final(self)@ == old(self)@.sown_from(slot_to_move as int),
            final(self).wf(),
            total(final(self)@.pits) == total(old(self)@.pits),
    {
        if self.game_over || slot_to_move >= BOARD_LENGTH {
            return ;
        }
        if self.game_board[slot_to_move] == 0 {
            return ;
        }
        let goal_slots: (usize, usize) = self.get_players_goal_slots();
        let cur_slot: usize = self.sow(slot_to_move);
        // The turn passes on unless the last stone reached the goal or captured.
        if cur_slot != goal_slots.0 && !self.capture(cur_slot) {
            self.player_one_turn = !self.player_one_turn;
        }
        if self.is_game_over() {
            self.game_over = true;
            self.collect_remaining_stones();
            self.active = false;
        }
    }

    /// Makes the move that the side to move asks for, if the rules accept it.
    ///
    /// A game that has ended accepts no move. Otherwise the pit must be one of
    /// the six ordinary pits of the side to move and hold at least one stone.
    /// A move that is refused changes nothing.
    pub fn apply_move(&mut self, pit_index: usize) -> (outcome: Result<(), MoveError>)
        requires
            old(self).wf(),
        ensures
            outcome == old(self)@.move_check(pit_index as int),
            final(self)@ == old(self)@.after_move(pit_index as int),
            final(self).wf(),
            total(final(self)@.pits) == total(old(self)@.pits),
    {
        if self.game_over {
            return Err(MoveError::GameAlreadyOver);
        }
        let first: usize = if self.player_one_turn {
            1
        } else {
            SLOTS + 1
        };
        if pit_index < first || pit_index >= first + SLOTS - 1 {
            return Err(MoveError::InvalidPit);
        }
        if self.game_board[pit_index] == 0 {
            return Err(MoveError::InvalidPit);
        }
        self.make_move(pit_index);
        Ok(())
    }

    /// The board, pit by pit.
    pub fn get_board(&self) -> (board: [u8; BOARD_LENGTH])
        ensures
            board == self.game_board,
    {
        self.game_board
    }

    /// Marks the game as ended.
    pub fn set_game_over(&mut self)
        ensures
            final(self)@ == (GameView { game_over: true, ..old(self)@ }),
    {
        self.game_over = true;
    }

    /// The stones in player one's goal.
    pub fn get_player_one_score(&self) -> (score: u8)
        requires
            self.player_one_goal_slot < BOARD_LENGTH,
        ensures
            score == self@.pits[self@.player_one_goal_slot],
    {
        self.game_board[self.player_one_goal_slot]
    }

    /// The stones in player two's goal.
    pub fn get_player_two_score(&self) -> (score: u8)
        requires
            self.player_two_goal_slot < BOARD_LENGTH,
        ensures
            score == self@.pits[self@.player_two_goal_slot],
    {
        self.game_board[self.player_two_goal_slot]
    }

    /// The board and the two scores, player one's first.
    pub fn snapshot(&self) -> (seen: ([u8; BOARD_LENGTH], u8, u8))
        requires
            self.player_one_goal_slot < BOARD_LENGTH,
            self.player_two_goal_slot < BOARD_LENGTH,
        ensures
            seen.0 == self.game_board,
            seen.1 == self@.pits[self@.player_one_goal_slot],
            seen.2 == self@.pits[self@.player_two_goal_slot],
    {
        (self.get_board(), self.get_player_one_score(), self.get_player_two_score())
    }
}

/// The slot that follows `slot` in sowing order when `skip` is left out.
fn next_slot(slot: usize, skip: usize) -> (next: usize)
    requires
        slot < BOARD_LENGTH,
    ensures
        next == next_pit(slot as int, skip as int),
        next < BOARD_LENGTH,
{
    let mut next: usize = (slot + 1) % BOARD_LENGTH;
    if next == skip {
        next = (next + 1) % BOARD_LENGTH;
    }
    next
}

impl Clone for GameState {
    fn clone(&self) -> (copy: GameState)
        ensures
            copy == *self,
    {
        GameState {
            player_one: self.player_one,
            player_two: self.player_two,
            game_name: self.game_name.clone(),
            game_id: self.game_id,
            game_board: self.game_board,
            player_one_goal_slot: self.player_one_goal_slot,
            player_two_goal_slot: self.player_two_goal_slot,
            player_one_turn: self.player_one_turn,
            active: self.active,
            game_over: self.game_over,
        }
    }
}

} // verus!
