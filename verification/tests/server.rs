use mancala::game_objects::GameState;
use mancala::proto::{Commands, GameStatus, Headers, Msg, Status};
use mancala::registry::SessionRegistry;
use mancala::server_input_handler::{
    client_disconnect, current_state, handle_in_game, handle_out_of_game, initial_setup,
    join_game, leave_game, list_active_games, list_active_users, make_move, set_nickname,
    start_new_game,
};

fn from_client(command: Commands, data: &str) -> Msg {
    Msg {
        status: Status::Okay,
        headers: Headers::Write,
        command,
        game_status: GameStatus::NotInGame,
        data: data.to_string(),
        game_state: GameState::new_empty(),
    }
}

fn answer(
    status: Status,
    headers: Headers,
    command: Commands,
    game_status: GameStatus,
    data: &str,
    game_state: GameState,
) -> Msg {
    Msg { status, headers, command, game_status, data: data.to_string(), game_state }
}

fn two_players_at_a_board() -> SessionRegistry {
    let mut registry = SessionRegistry::new();
    registry.reserve_name("ann".to_string(), 1).unwrap();
    registry.reserve_name("bob".to_string(), 2).unwrap();
    registry.create_game(1, "first".to_string());
    registry.join_game(2, 0).unwrap();
    registry
}

#[test]
fn hello_is_answered_with_name_and_id() {
    let mut registry = SessionRegistry::new();
    registry.reserve_name("ann".to_string(), 17).unwrap();
    assert_eq!(
        initial_setup(&registry, 17),
        answer(
            Status::Okay,
            Headers::Response,
            Commands::Reply,
            GameStatus::NotInGame,
            "ann^17",
            GameState::new_empty()
        )
    );
    assert_eq!(
        initial_setup(&registry, 18),
        answer(
            Status::NotOkay,
            Headers::Response,
            Commands::Reply,
            GameStatus::NotInGame,
            "unknown client",
            GameState::new_empty()
        )
    );
}

#[test]
fn games_are_listed_by_id() {
    let mut registry = SessionRegistry::new();
    assert_eq!(list_active_games(&registry).data, "Available Games: \n");
    registry.create_game(1, "first".to_string());
    registry.create_game(2, String::new());
    for client in 3..13 {
        registry.create_game(client, "more".to_string());
    }
    let msg = list_active_games(&registry);
    assert_eq!(
        msg.data,
        "Available Games: \n0: first\n1: New Game\n2: more\n3: more\n4: more\n5: more\n6: more\n\
         7: more\n8: more\n9: more\n10: more\n11: more\n"
    );
    assert_eq!(msg.status, Status::Okay);
    assert_eq!(msg.headers, Headers::Response);
    assert_eq!(msg.command, Commands::Reply);
    assert_eq!(msg.game_status, GameStatus::NotInGame);
    assert_eq!(msg.game_state, GameState::new_empty());
}

#[test]
fn users_are_listed_each_once() {
    let mut registry = SessionRegistry::new();
    assert_eq!(list_active_users(&registry).data, "Active Users: \n");
    registry.reserve_name("ann".to_string(), 1).unwrap();
    assert_eq!(list_active_users(&registry).data, "Active Users: \nann\n");
    registry.reserve_name("bob".to_string(), 2).unwrap();
    let msg = list_active_users(&registry);
    assert!(
        msg.data == "Active Users: \nann\nbob\n" || msg.data == "Active Users: \nbob\nann\n"
    );
    assert_eq!(msg.status, Status::Okay);
    assert_eq!(msg.command, Commands::Reply);
    assert_eq!(msg.game_state, GameState::new_empty());
}

#[test]
fn nickname_is_granted_or_refused() {
    let mut registry = SessionRegistry::new();
    registry.reserve_name("guest1".to_string(), 1).unwrap();
    registry.reserve_name("guest2".to_string(), 2).unwrap();
    assert_eq!(
        set_nickname(&mut registry, &from_client(Commands::SetNick, "ann"), 1),
        answer(
            Status::Okay,
            Headers::Response,
            Commands::SetNick,
            GameStatus::NotInGame,
            "ann",
            GameState::new_empty()
        )
    );
    assert_eq!(registry.name_of(1), Some("ann".to_string()));
    assert_eq!(
        set_nickname(&mut registry, &from_client(Commands::SetNick, "ann"), 2),
        answer(
            Status::NotOkay,
            Headers::Response,
            Commands::SetNick,
            GameStatus::NotInGame,
            "nickname already in use",
            GameState::new_empty()
        )
    );
    assert_eq!(registry.name_of(2), Some("guest2".to_string()));
    assert_eq!(
        set_nickname(&mut registry, &from_client(Commands::SetNick, "guest1"), 2).status,
        Status::Okay
    );
    assert_eq!(
        set_nickname(&mut registry, &from_client(Commands::SetNick, "fresh"), 3).status,
        Status::Okay
    );
    assert_eq!(registry.name_of(3), Some("fresh".to_string()));
}

#[test]
fn new_game_sends_its_maker_to_the_board() {
    let mut registry = SessionRegistry::new();
    let msg = start_new_game(&mut registry, 4, "first".to_string());
    assert_eq!(
        msg,
        answer(
            Status::Okay,
            Headers::Response,
            Commands::MakeNewGame,
            GameStatus::InGame,
            "New Game",
            GameState::new(4, "first".to_string(), 0)
        )
    );
    assert_eq!(registry.lookup_game_for(4), Ok(GameState::new(4, "first".to_string(), 0)));
    let msg = start_new_game(&mut registry, 5, String::new());
    assert_eq!(msg.game_state, GameState::new(5, "New Game".to_string(), 1));
}

#[test]
fn join_reads_the_id_of_the_game() {
    let mut registry = SessionRegistry::new();
    registry.create_game(1, "first".to_string());
    registry.create_game(3, "second".to_string());
    let msg = join_game(&mut registry, 2, &from_client(Commands::JoinGame, "1"));
    let mut game = GameState::new(3, "second".to_string(), 1);
    game.add_new_player(2);
    assert_eq!(
        msg,
        answer(
            Status::Okay,
            Headers::Response,
            Commands::JoinGame,
            GameStatus::InGame,
            "Joined Game second",
            game.clone()
        )
    );
    assert!(msg.game_state.active);
    assert_eq!(registry.lookup_game_for(2), Ok(game));
}

#[test]
fn join_of_an_unknown_game_is_refused() {
    let mut registry = SessionRegistry::new();
    registry.create_game(1, "first".to_string());
    for text in ["1", "77", "", "first", "-1", "0 ", "4294967296"] {
        assert_eq!(
            join_game(&mut registry, 2, &from_client(Commands::JoinGame, text)),
            answer(
                Status::NotOkay,
                Headers::Response,
                Commands::JoinGame,
                GameStatus::NotInGame,
                "unknown game",
                GameState::new_empty()
            )
        );
    }
    assert!(registry.lookup_game_for(2).is_err());
    assert_eq!(registry.lookup_game_for(1).unwrap().player_two, 0);
}

#[test]
fn goodbye_frees_name_and_seat() {
    let mut registry = two_players_at_a_board();
    assert_eq!(
        client_disconnect(&mut registry, 2),
        answer(
            Status::Okay,
            Headers::Response,
            Commands::KillClient,
            GameStatus::NotInGame,
            "Nick bob successfully booted",
            GameState::new_empty()
        )
    );
    assert_eq!(registry.name_of(2), None);
    assert!(registry.lookup_game_for(2).is_err());
    assert!(!registry.lookup_game_for(1).unwrap().active);
    assert_eq!(client_disconnect(&mut registry, 2).data, "Nick  successfully booted");
    assert_eq!(registry.name_of(1), Some("ann".to_string()));
}

#[test]
fn menu_commands_reach_their_handlers() {
    let mut registry = SessionRegistry::new();
    registry.reserve_name("guest".to_string(), 1).unwrap();
    let hello = handle_out_of_game(
        Commands::InitSetup,
        &mut registry,
        &from_client(Commands::InitSetup, ""),
        1,
    );
    assert_eq!(hello.data, "guest^1");
    let nick = handle_out_of_game(
        Commands::SetNick,
        &mut registry,
        &from_client(Commands::SetNick, "ann"),
        1,
    );
    assert_eq!(nick.command, Commands::SetNick);
    assert_eq!(nick.data, "ann");
    let users = handle_out_of_game(
        Commands::ListUsers,
        &mut registry,
        &from_client(Commands::ListUsers, ""),
        1,
    );
    assert_eq!(users.data, "Active Users: \nann\n");
    let made = handle_out_of_game(
        Commands::MakeNewGame,
        &mut registry,
        &from_client(Commands::MakeNewGame, "first"),
        1,
    );
    assert_eq!(made.command, Commands::MakeNewGame);
    assert_eq!(made.game_state.game_name, "first");
    let games = handle_out_of_game(
        Commands::ListGames,
        &mut registry,
        &from_client(Commands::ListGames, ""),
        2,
    );
    assert_eq!(games.data, "Available Games: \n0: first\n");
    let joined = handle_out_of_game(
        Commands::JoinGame,
        &mut registry,
        &from_client(Commands::JoinGame, "0"),
        2,
    );
    assert_eq!(joined.data, "Joined Game first");
    assert!(joined.game_state.active);
    let gone = handle_out_of_game(
        Commands::KillMe,
        &mut registry,
        &from_client(Commands::KillMe, ""),
        1,
    );
    assert_eq!(gone.command, Commands::KillClient);
    assert_eq!(gone.data, "Nick ann successfully booted");
    assert_eq!(registry.name_of(1), None);
}

#[test]
fn command_that_the_menu_does_not_know_is_refused() {
    let mut registry = SessionRegistry::new();
    for command in [
        Commands::MakeMove,
        Commands::GetCurrentGamestate,
        Commands::LeaveGame,
        Commands::Reply,
        Commands::KillClient,
        Commands::GameIsOver,
    ] {
        assert_eq!(
            handle_out_of_game(command, &mut registry, &from_client(command, "1"), 1),
            answer(
                Status::NotOkay,
                Headers::Response,
                Commands::Reply,
                GameStatus::NotInGame,
                "",
                GameState::new_empty()
            )
        );
    }
}

#[test]
fn current_state_shows_the_game() {
    let game = GameState::new(1, "first".to_string(), 0);
    assert_eq!(
        current_state(&game),
        answer(
            Status::Okay,
            Headers::Read,
            Commands::Reply,
            GameStatus::InGame,
            "Current Game State",
            game
        )
    );
}

#[test]
fn move_is_made_and_shown() {
    let mut game = GameState::new(1, "first".to_string(), 0);
    game.add_new_player(2);
    let msg = make_move(&from_client(Commands::MakeMove, "3"), &mut game);
    assert_eq!(game.game_board, [0, 4, 4, 0, 5, 5, 5, 1, 4, 4, 4, 4, 4, 4]);
    assert_eq!(
        msg,
        answer(
            Status::Okay,
            Headers::Read,
            Commands::Reply,
            GameStatus::InGame,
            "Current Game State",
            game
        )
    );
}

#[test]
fn refused_move_says_why_and_shows_the_game_as_it_was() {
    let mut game = GameState::new(1, "first".to_string(), 0);
    game.add_new_player(2);
    let before = game.clone();
    for text in ["8", "0", "7", "14", "", "three", "-3", "4294967296"] {
        let msg = make_move(&from_client(Commands::MakeMove, text), &mut game);
        assert_eq!(
            msg,
            answer(
                Status::NotOkay,
                Headers::Read,
                Commands::Reply,
                GameStatus::InGame,
                "invalid pit",
                before.clone()
            )
        );
        assert_eq!(game, before);
    }
    game.set_game_over();
    for text in ["1", "8", "nonsense"] {
        let msg = make_move(&from_client(Commands::MakeMove, text), &mut game);
        assert_eq!(
            msg,
            answer(
                Status::NotOkay,
                Headers::Read,
                Commands::Reply,
                GameStatus::InGame,
                "game already over",
                game.clone()
            )
        );
    }
}

#[test]
fn client_without_a_game_is_told_so() {
    let mut registry = SessionRegistry::new();
    for command in [Commands::GetCurrentGamestate, Commands::MakeMove, Commands::LeaveGame] {
        assert_eq!(
            handle_in_game(command, &mut registry, &from_client(command, "1"), 1),
            answer(
                Status::NotOkay,
                Headers::Read,
                Commands::Reply,
                GameStatus::NotInGame,
                "not in a game",
                GameState::new_empty()
            )
        );
    }
}

#[test]
fn board_commands_reach_the_game_of_the_client() {
    let mut registry = two_players_at_a_board();
    let shown = handle_in_game(
        Commands::GetCurrentGamestate,
        &mut registry,
        &from_client(Commands::GetCurrentGamestate, ""),
        2,
    );
    assert_eq!(shown.data, "Current Game State");
    assert_eq!(shown.game_state, registry.lookup_game_for(1).unwrap());
    let moved = handle_in_game(
        Commands::MakeMove,
        &mut registry,
        &from_client(Commands::MakeMove, "1"),
        1,
    );
    assert_eq!(moved.status, Status::Okay);
    assert_eq!(moved.game_state.game_board, [0, 0, 5, 5, 5, 5, 4, 0, 4, 4, 4, 4, 4, 4]);
    assert_eq!(registry.lookup_game_for(2).unwrap(), moved.game_state);
    let refused = handle_in_game(
        Commands::MakeMove,
        &mut registry,
        &from_client(Commands::MakeMove, "1"),
        1,
    );
    assert_eq!(refused.status, Status::NotOkay);
    assert_eq!(refused.data, "invalid pit");
    assert_eq!(refused.game_state, moved.game_state);
    let odd = handle_in_game(
        Commands::ListUsers,
        &mut registry,
        &from_client(Commands::ListUsers, ""),
        1,
    );
    assert_eq!(
        odd,
        answer(
            Status::NotOkay,
            Headers::Read,
            Commands::Reply,
            GameStatus::NotInGame,
            "Somethings wrong",
            moved.game_state.clone()
        )
    );
}

#[test]
fn finished_game_is_announced_to_both_players() {
    let mut registry = two_players_at_a_board();
    let mut turns = 0;
    loop {
        let game = registry.lookup_game_for(1).unwrap();
        if game.game_over {
            break;
        }
        let first = if game.player_one_turn { 1 } else { 8 };
        let pit = (first..first + 6).find(|&pit| game.game_board[pit] > 0).unwrap();
        let client = if game.player_one_turn { 1 } else { 2 };
        let msg = handle_in_game(
            Commands::MakeMove,
            &mut registry,
            &from_client(Commands::MakeMove, &pit.to_string()),
            client,
        );
        assert_eq!(msg.status, Status::Okay);
        assert_eq!(msg.data, "Current Game State");
        turns += 1;
        assert!(turns < 1000);
    }
    let end = registry.lookup_game_for(1).unwrap();
    assert!(end.game_over);
    assert!(!end.active);
    assert_eq!(end.get_player_one_score() + end.get_player_two_score(), 48);
    for command in [Commands::MakeMove, Commands::GetCurrentGamestate, Commands::LeaveGame] {
        for client in [1, 2] {
            assert_eq!(
                handle_in_game(command, &mut registry, &from_client(command, "1"), client),
                answer(
                    Status::Okay,
                    Headers::Write,
                    Commands::GameIsOver,
                    GameStatus::NotInGame,
                    "Game Over",
                    end.clone()
                )
            );
        }
    }
}

#[test]
fn leaving_forgets_the_client() {
    let mut registry = two_players_at_a_board();
    assert_eq!(
        leave_game(&mut registry, 2),
        answer(
            Status::Okay,
            Headers::Response,
            Commands::LeaveGame,
            GameStatus::NotInGame,
            "Left Game",
            GameState::new_empty()
        )
    );
    assert!(registry.lookup_game_for(2).is_err());
    assert_eq!(registry.name_of(2), None);
    let waiting = registry.lookup_game_for(1).unwrap();
    assert_eq!(waiting.player_two, 0);
    assert!(!waiting.active);
    let msg = handle_in_game(
        Commands::LeaveGame,
        &mut registry,
        &from_client(Commands::LeaveGame, ""),
        1,
    );
    assert_eq!(msg.command, Commands::LeaveGame);
    assert!(registry.lookup_game_for(1).is_err());
}
