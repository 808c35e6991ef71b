use mancala::constants::{SLOTS, STARTING_STONES};
use mancala::game_objects::GameState;

#[test]
fn test_game_state_can_be_initialized() {
    let gs: GameState = GameState::new(1, "name".to_string(), 0);
    assert!(!gs.active);
}

#[test]
fn test_game_state_init_values_are_correct() {
    let gs: GameState = GameState::new(1, "name".to_string(), 0);
    let mut init_game_board = [STARTING_STONES; SLOTS * 2];
    init_game_board[SLOTS] = 0;
    init_game_board[0] = 0;
    assert_eq!(gs.player_one, 1);
    assert_eq!(gs.player_two, 0);
    assert_eq!(gs.game_name, "name");
    assert_eq!(gs.game_id, 0);
    assert_eq!(gs.game_board, init_game_board);
    assert!(gs.player_one_turn);
    assert!(!gs.active);
}

#[test]
fn test_game_becomes_active_after_adding_both_players() {
    let mut gs: GameState = GameState::new_empty();
    gs.add_new_player(1);
    assert!(!gs.active);
    gs.add_new_player(2);
    assert!(gs.active);
}

#[test]
fn test_game_properly_removes_player_one() {
    let mut gs: GameState = GameState::new(1, "name".to_string(), 0);
    assert_eq!(gs.player_one, 1);
    gs.remove_player(1);
    assert_eq!(gs.player_one, 0);
}

#[test]
fn test_game_properly_removes_player_two() {
    let mut gs: GameState = GameState::new(1, "name".to_string(), 0);
    gs.add_new_player(2);
    assert_eq!(gs.player_two, 2);
    gs.remove_player(2);
    assert_eq!(gs.player_two, 0);
}

#[test]
fn test_game_becomes_active_after_adding_player_two() {
    let mut gs: GameState = GameState::new(1, "name".to_string(), 0);
    assert!(!gs.active);
    gs.add_new_player(1);
    assert!(gs.active);
}

#[test]
fn test_game_state_updates_after_one_move() {
    let mut gs: GameState = GameState::new(1, "name".to_string(), 0);
    gs.add_new_player(1);
    let mut init_game_board = [STARTING_STONES; SLOTS * 2];
    init_game_board[SLOTS] = 0;
    init_game_board[0] = 0;
    gs.make_move(1);
    assert_ne!(gs.game_board, init_game_board);
}

#[test]
fn test_turn_changes_after_making_move() {
    let mut gs: GameState = GameState::new(1, "name".to_string(), 0);
    gs.add_new_player(1);
    let turn1: bool = gs.player_one_turn;
    gs.make_move(1);
    let turn2: bool = gs.player_one_turn;
    gs.make_move(2);
    let turn3: bool = gs.player_one_turn;
    gs.make_move(3);
    let turn4: bool = gs.player_one_turn;
    assert_eq!(turn1, turn3);
    assert_eq!(turn2, turn4);
    assert_ne!(turn1, turn2);
    assert_ne!(turn3, turn4);
}

#[test]
fn test_scoring_turns_dont_change_players() {
    let mut gs: GameState = GameState::new(1, "name".to_string(), 0);
    gs.add_new_player(1);
    let turn1: bool = gs.player_one_turn;
    gs.make_move(3);
    let turn2: bool = gs.player_one_turn;
    assert_eq!(turn1, turn2);
}

#[test]
fn test_player_one_captures() {
    // this test assumes SLOTS = 7 and starting_stones = 4
    let mut gs: GameState = GameState::new(1, "name".to_string(), 0);
    gs.add_new_player(1);
    gs.make_move(6);
    gs.make_move(11);
    let turn1: bool = gs.player_one_turn;
    gs.make_move(2);
    let turn2: bool = gs.player_one_turn;
    assert_eq!(turn1, turn2);
    assert_eq!(gs.game_board[gs.player_one_goal_slot], 7);
    assert_eq!(gs.game_board[gs.player_two_goal_slot], 1);
    assert_eq!(gs.game_board[8], 0);
    assert_eq!(gs.game_board[6], 0);
}

#[test]
fn test_player_two_captures() {
    // this test assumes SLOTS = 7 and starting_stones = 4
    let mut gs: GameState = GameState::new(1, "name".to_string(), 0);
    gs.add_new_player(2);
    gs.make_move(4);
    gs.make_move(13);
    gs.make_move(2);
    gs.make_move(4);
    gs.make_move(9);
    assert!(!gs.player_one_turn);
    assert_eq!(gs.game_board[gs.player_one_goal_slot], 2);
    assert_eq!(gs.game_board[gs.player_two_goal_slot], 7);
    assert_eq!(gs.game_board[1], 0);
    assert_eq!(gs.game_board[13], 0);
}

#[test]
fn test_collect_remaining() {
    let mut gs: GameState = GameState::new(1, "name".to_string(), 0);
    gs.add_new_player(1);
    let mut gs2: GameState = GameState::new(1, "name".to_string(), 0);
    gs.add_new_player(1);
    gs.collect_remaining_stones();
    gs2.make_move(6);
    gs2.collect_remaining_stones();
    assert_eq!(gs.game_board[gs.player_one_goal_slot], 24);
    assert_eq!(gs.game_board[gs.player_two_goal_slot], 24);
    assert_eq!(gs2.game_board[gs2.player_one_goal_slot], 21);
    assert_eq!(gs2.game_board[gs2.player_two_goal_slot], 27);
}

#[test]
fn test_game_over() {
    let mut gs: GameState = GameState::new(1, "name".to_string(), 0);
    gs.game_board = [24, 0, 0, 0, 0, 0, 0, 20, 0, 0, 4, 0, 0, 0];
    assert!(!gs.game_over);
    gs.make_move(10);
    assert!(gs.game_over);
}

#[test]
fn test_set_game_over() {
    let mut gs: GameState = GameState::new(1, "name".to_string(), 0);
    assert!(!gs.game_over);
    gs.set_game_over();
    assert!(gs.game_over);
}

#[test]
fn test_get_board() {
    let gs: GameState = GameState::new(1, "name".to_string(), 0);
    let gs_board = gs.get_board();
    let init_board = [0, 4, 4, 4, 4, 4, 4, 0, 4, 4, 4, 4, 4, 4];
    assert_eq!(gs_board, init_board);
}

#[test]
fn test_get_scores() {
    let mut gs: GameState = GameState::new(1, "name".to_string(), 0);
    gs.game_board = [24, 0, 0, 0, 0, 0, 0, 20, 0, 0, 4, 0, 0, 0];
    let player_one_score = gs.get_player_one_score();
    let player_two_score = gs.get_player_two_score();
    assert_eq!(player_one_score, 20);
    assert_eq!(player_two_score, 24);
}
