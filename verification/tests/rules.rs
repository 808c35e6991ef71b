use mancala::constants::{BOARD_LENGTH, SLOTS, STARTING_STONES, TOTAL_STONES};
use mancala::game_objects::{GameState, MoveError};

fn stones(gs: &GameState) -> u32 {
    gs.game_board.iter().map(|&pit| pit as u32).sum()
}

fn fresh() -> GameState {
    let mut gs = GameState::new(1, "name".to_string(), 0);
    gs.add_new_player(2);
    gs
}

#[test]
fn constants_describe_the_board() {
    assert_eq!(SLOTS, 7);
    assert_eq!(STARTING_STONES, 4);
    assert_eq!(BOARD_LENGTH, 14);
    assert_eq!(TOTAL_STONES, 48);
}

#[test]
fn new_game_holds_forty_eight_stones() {
    let gs = GameState::new(1, "name".to_string(), 3);
    assert_eq!(gs.game_board, [0, 4, 4, 4, 4, 4, 4, 0, 4, 4, 4, 4, 4, 4]);
    assert_eq!(stones(&gs), 48);
    assert_eq!(gs.game_id, 3);
    assert_eq!(gs.player_one_goal_slot, 7);
    assert_eq!(gs.player_two_goal_slot, 0);
    assert!(!gs.game_over);
}

#[test]
fn empty_game_is_bare() {
    let gs = GameState::new_empty();
    assert_eq!(gs.player_one, 0);
    assert_eq!(gs.player_two, 0);
    assert_eq!(gs.game_name, "empty");
    assert_eq!(gs.game_id, 0);
    assert_eq!(gs.game_board, [0; 14]);
    assert_eq!(gs.player_one_goal_slot, 0);
    assert_eq!(gs.player_two_goal_slot, 0);
    assert!(!gs.player_one_turn);
    assert!(!gs.active);
    assert!(!gs.game_over);
    assert_eq!(gs.get_player_one_score(), 0);
    assert_eq!(gs.get_player_two_score(), 0);
}

#[test]
fn stones_are_conserved_through_a_game() {
    let mut gs = fresh();
    let moves = [3, 1, 8, 2, 9, 6, 10, 4, 11, 5, 12, 1, 13, 2, 8, 3, 9, 4];
    for pit in moves {
        let _ = gs.apply_move(pit);
        assert_eq!(stones(&gs), 48);
    }
}

#[test]
fn stones_are_conserved_by_the_sweep() {
    let mut gs = fresh();
    gs.make_move(6);
    assert_eq!(stones(&gs), 48);
    gs.collect_remaining_stones();
    assert_eq!(stones(&gs), 48);
    assert_eq!(gs.game_board, [27, 0, 0, 0, 0, 0, 0, 21, 0, 0, 0, 0, 0, 0]);
}

#[test]
fn plain_move_passes_the_turn() {
    let mut gs = fresh();
    assert_eq!(gs.apply_move(1), Ok(()));
    assert_eq!(gs.game_board, [0, 0, 5, 5, 5, 5, 4, 0, 4, 4, 4, 4, 4, 4]);
    assert!(!gs.player_one_turn);
    assert_eq!(gs.apply_move(8), Ok(()));
    assert_eq!(gs.game_board, [0, 0, 5, 5, 5, 5, 4, 0, 0, 5, 5, 5, 5, 4]);
    assert!(gs.player_one_turn);
}

#[test]
fn last_stone_in_own_goal_keeps_the_turn() {
    let mut gs = fresh();
    assert_eq!(gs.apply_move(3), Ok(()));
    assert_eq!(gs.game_board, [0, 4, 4, 0, 5, 5, 5, 1, 4, 4, 4, 4, 4, 4]);
    assert!(gs.player_one_turn);
}

#[test]
fn player_two_lands_in_own_goal_and_keeps_the_turn() {
    let mut gs = fresh();
    assert_eq!(gs.apply_move(1), Ok(()));
    assert_eq!(gs.apply_move(10), Ok(()));
    assert_eq!(gs.game_board, [1, 0, 5, 5, 5, 5, 4, 0, 4, 4, 0, 5, 5, 5]);
    assert!(!gs.player_one_turn);
}

#[test]
fn sowing_passes_over_the_opponents_goal() {
    let mut gs = fresh();
    gs.game_board = [0, 0, 0, 2, 0, 0, 10, 0, 1, 1, 1, 1, 1, 31];
    assert_eq!(gs.apply_move(6), Ok(()));
    assert_eq!(gs.game_board, [0, 1, 1, 3, 0, 0, 0, 1, 2, 2, 2, 2, 2, 32]);
    assert!(!gs.player_one_turn);

    let mut gs = fresh();
    gs.player_one_turn = false;
    gs.game_board = [0, 1, 1, 1, 1, 1, 33, 0, 2, 0, 0, 0, 0, 8];
    assert_eq!(gs.apply_move(13), Ok(()));
    assert_eq!(gs.game_board, [1, 2, 2, 2, 2, 2, 34, 0, 3, 0, 0, 0, 0, 0]);
    assert!(gs.player_one_turn);
}

#[test]
fn long_sowing_that_comes_home_alone_captures() {
    let mut gs = fresh();
    gs.game_board = [0, 0, 0, 0, 0, 0, 10, 0, 1, 1, 1, 1, 1, 33];
    assert_eq!(gs.apply_move(6), Ok(()));
    assert_eq!(gs.game_board, [0, 1, 1, 0, 0, 0, 0, 4, 2, 2, 2, 0, 2, 34]);
    assert!(gs.player_one_turn);

    let mut gs = fresh();
    gs.player_one_turn = false;
    gs.game_board = [0, 1, 1, 1, 1, 1, 35, 0, 0, 0, 0, 0, 0, 8];
    assert_eq!(gs.apply_move(13), Ok(()));
    assert_eq!(gs.game_board, [38, 0, 0, 0, 0, 0, 0, 10, 0, 0, 0, 0, 0, 0]);
    assert!(gs.game_over);
}

#[test]
fn thirteen_stones_come_round_and_capture() {
    let mut gs = fresh();
    gs.game_board = [0, 0, 0, 13, 0, 0, 0, 0, 5, 5, 5, 5, 5, 10];
    assert_eq!(gs.apply_move(3), Ok(()));
    assert!(gs.player_one_turn);
    assert_eq!(gs.game_board, [0, 1, 1, 0, 1, 1, 1, 8, 6, 6, 6, 0, 6, 11]);
    assert_eq!(stones(&gs), 48);
}

#[test]
fn twenty_seven_stones_go_round_twice() {
    let mut gs = fresh();
    gs.game_board = [0, 27, 1, 1, 1, 1, 1, 0, 2, 2, 2, 2, 2, 6];
    assert_eq!(gs.apply_move(1), Ok(()));
    assert_eq!(gs.game_board, [0, 2, 4, 3, 3, 3, 3, 2, 4, 4, 4, 4, 4, 8]);
    assert!(!gs.player_one_turn);
    assert_eq!(stones(&gs), 48);
}

#[test]
fn capture_takes_the_pit_across() {
    let mut gs = fresh();
    gs.game_board = [0, 1, 0, 4, 4, 4, 4, 3, 4, 4, 4, 4, 7, 5];
    assert_eq!(gs.apply_move(1), Ok(()));
    assert_eq!(gs.game_board, [0, 0, 0, 4, 4, 4, 4, 11, 4, 4, 4, 4, 0, 5]);
    assert!(gs.player_one_turn);
}

#[test]
fn landing_in_a_pit_with_stones_does_not_capture() {
    let mut gs = fresh();
    gs.game_board = [0, 1, 2, 4, 4, 4, 4, 3, 4, 4, 4, 4, 5, 5];
    assert_eq!(gs.apply_move(1), Ok(()));
    assert_eq!(gs.game_board, [0, 0, 3, 4, 4, 4, 4, 3, 4, 4, 4, 4, 5, 5]);
    assert!(!gs.player_one_turn);
}

#[test]
fn landing_alone_across_an_empty_pit_does_not_capture() {
    let mut gs = fresh();
    gs.game_board = [0, 1, 0, 4, 4, 4, 4, 3, 4, 4, 4, 4, 0, 12];
    assert_eq!(gs.apply_move(1), Ok(()));
    assert_eq!(gs.game_board, [0, 0, 1, 4, 4, 4, 4, 3, 4, 4, 4, 4, 0, 12]);
    assert!(!gs.player_one_turn);
}

#[test]
fn landing_alone_on_the_other_side_does_not_capture() {
    let mut gs = fresh();
    gs.game_board = [0, 4, 4, 4, 4, 4, 2, 3, 0, 4, 4, 4, 4, 7];
    assert_eq!(gs.apply_move(6), Ok(()));
    assert_eq!(gs.game_board, [0, 4, 4, 4, 4, 4, 0, 4, 1, 4, 4, 4, 4, 7]);
    assert!(!gs.player_one_turn);
}

#[test]
fn move_that_empties_the_next_side_ends_the_game() {
    let mut gs = fresh();
    gs.game_board = [20, 0, 0, 0, 0, 0, 1, 19, 2, 0, 0, 3, 0, 3];
    assert_eq!(gs.apply_move(6), Ok(()));
    assert!(gs.game_over);
    assert!(!gs.active);
    assert!(gs.player_one_turn);
    assert_eq!(gs.game_board, [28, 0, 0, 0, 0, 0, 0, 20, 0, 0, 0, 0, 0, 0]);
    assert_eq!(gs.apply_move(8), Err(MoveError::GameAlreadyOver));
    assert_eq!(gs.apply_move(1), Err(MoveError::GameAlreadyOver));
    assert_eq!(gs.game_board, [28, 0, 0, 0, 0, 0, 0, 20, 0, 0, 0, 0, 0, 0]);
    gs.make_move(8);
    assert_eq!(gs.game_board, [28, 0, 0, 0, 0, 0, 0, 20, 0, 0, 0, 0, 0, 0]);
    assert!(gs.game_over);
}

#[test]
fn game_goes_on_while_the_next_side_has_stones() {
    let mut gs = fresh();
    gs.game_board = [20, 0, 0, 0, 0, 0, 2, 19, 2, 0, 0, 2, 0, 3];
    assert_eq!(gs.apply_move(6), Ok(()));
    assert!(!gs.game_over);
    assert!(gs.active);
    assert!(!gs.player_one_turn);
    assert_eq!(gs.game_board, [20, 0, 0, 0, 0, 0, 0, 20, 3, 0, 0, 2, 0, 3]);
}

#[test]
fn moves_from_pits_that_are_not_the_movers_are_invalid() {
    let mut gs = fresh();
    let before = gs.game_board;
    assert_eq!(gs.apply_move(0), Err(MoveError::InvalidPit));
    assert_eq!(gs.apply_move(7), Err(MoveError::InvalidPit));
    assert_eq!(gs.apply_move(8), Err(MoveError::InvalidPit));
    assert_eq!(gs.apply_move(13), Err(MoveError::InvalidPit));
    assert_eq!(gs.apply_move(14), Err(MoveError::InvalidPit));
    assert_eq!(gs.apply_move(usize::MAX), Err(MoveError::InvalidPit));
    assert_eq!(gs.game_board, before);
    assert!(gs.player_one_turn);
    assert_eq!(gs.apply_move(1), Ok(()));
    let before = gs.game_board;
    assert_eq!(gs.apply_move(0), Err(MoveError::InvalidPit));
    assert_eq!(gs.apply_move(2), Err(MoveError::InvalidPit));
    assert_eq!(gs.apply_move(6), Err(MoveError::InvalidPit));
    assert_eq!(gs.apply_move(7), Err(MoveError::InvalidPit));
    assert_eq!(gs.game_board, before);
    assert!(!gs.player_one_turn);
}

#[test]
fn move_from_an_empty_pit_is_invalid() {
    let mut gs = fresh();
    assert_eq!(gs.apply_move(3), Ok(()));
    assert!(gs.player_one_turn);
    let before = gs.game_board;
    assert_eq!(gs.apply_move(3), Err(MoveError::InvalidPit));
    assert_eq!(gs.game_board, before);
    assert!(gs.player_one_turn);
}

#[test]
fn finished_game_refuses_before_it_looks_at_the_pit() {
    let mut gs = fresh();
    gs.set_game_over();
    assert_eq!(gs.apply_move(1), Err(MoveError::GameAlreadyOver));
    assert_eq!(gs.apply_move(0), Err(MoveError::GameAlreadyOver));
    assert_eq!(gs.apply_move(99), Err(MoveError::GameAlreadyOver));
    assert_eq!(gs.game_board, [0, 4, 4, 4, 4, 4, 4, 0, 4, 4, 4, 4, 4, 4]);
}

#[test]
fn make_move_leaves_a_game_alone_where_there_is_nothing_to_sow() {
    let mut gs = fresh();
    gs.make_move(14);
    gs.make_move(0);
    gs.make_move(7);
    assert_eq!(gs.game_board, [0, 4, 4, 4, 4, 4, 4, 0, 4, 4, 4, 4, 4, 4]);
    assert!(gs.player_one_turn);
}

#[test]
fn make_move_sows_for_the_side_to_move_whoever_owns_the_pit() {
    let mut gs = fresh();
    gs.make_move(12);
    assert_eq!(gs.game_board, [0, 5, 5, 5, 4, 4, 4, 0, 4, 4, 4, 4, 0, 5]);
    assert!(!gs.player_one_turn);
}

#[test]
fn second_player_makes_the_game_active_and_not_before() {
    let mut gs = GameState::new(5, "name".to_string(), 0);
    assert!(!gs.active);
    assert_eq!(gs.player_two, 0);
    gs.add_new_player(9);
    assert!(gs.active);
    assert_eq!(gs.player_one, 5);
    assert_eq!(gs.player_two, 9);
    gs.add_new_player(11);
    assert!(gs.active);
    assert_eq!(gs.player_one, 5);
    assert_eq!(gs.player_two, 9);
}

#[test]
fn full_game_that_is_not_active_stays_so_when_somebody_knocks() {
    let mut gs = fresh();
    gs.game_board = [20, 0, 0, 0, 0, 0, 1, 19, 2, 0, 0, 3, 0, 3];
    assert_eq!(gs.apply_move(6), Ok(()));
    assert!(!gs.active);
    gs.add_new_player(7);
    assert!(!gs.active);
    assert_eq!(gs.player_one, 1);
    assert_eq!(gs.player_two, 2);
}

#[test]
fn player_who_leaves_sets_the_board_back() {
    let mut gs = fresh();
    assert_eq!(gs.apply_move(1), Ok(()));
    gs.remove_player(2);
    assert_eq!(gs.player_one, 1);
    assert_eq!(gs.player_two, 0);
    assert!(!gs.active);
    assert_eq!(gs.game_board, [0, 4, 4, 4, 4, 4, 4, 0, 4, 4, 4, 4, 4, 4]);
    assert!(!gs.player_one_turn);
}

#[test]
fn stranger_who_leaves_changes_nothing_in_a_full_game() {
    let mut gs = fresh();
    assert_eq!(gs.apply_move(1), Ok(()));
    gs.remove_player(77);
    assert!(gs.active);
    assert_eq!(gs.game_board, [0, 0, 5, 5, 5, 5, 4, 0, 4, 4, 4, 4, 4, 4]);
}

#[test]
fn player_in_both_slots_leaves_the_first() {
    let mut gs = GameState::new(1, "name".to_string(), 0);
    gs.add_new_player(1);
    gs.remove_player(1);
    assert_eq!(gs.player_one, 0);
    assert_eq!(gs.player_two, 1);
    assert!(!gs.active);
}

#[test]
fn snapshot_shows_board_and_scores() {
    let mut gs = fresh();
    gs.game_board = [24, 0, 0, 0, 0, 0, 0, 20, 0, 0, 4, 0, 0, 0];
    assert_eq!(gs.snapshot(), ([24, 0, 0, 0, 0, 0, 0, 20, 0, 0, 4, 0, 0, 0], 20, 24));
    assert_eq!(GameState::new_empty().snapshot(), ([0; 14], 0, 0));
}

#[test]
fn copy_of_a_game_equals_the_game() {
    let mut gs = fresh();
    assert_eq!(gs.apply_move(2), Ok(()));
    let copy = gs.clone();
    assert_eq!(copy, gs);
}
