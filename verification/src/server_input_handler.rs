//! What the server answers to each command of a client.
//!
//! Every function here takes the registry as a plain value. A server that
//! serves many clients at once holds the registry behind one lock and calls
//! these functions while it holds the lock.

use vstd::prelude::*;
use vstd::string::StringExecFns;
use crate::constants::BOARD_LENGTH;
use crate::game_objects::{GameState, GameView, MoveError};
use crate::proto::{Commands, GameStatus, Headers, Msg, MsgView, Status};
use crate::registry::{RegistryView, SessionRegistry};
use crate::text::{decimal_text, parse_number, parsed_number, push_number};

verus! {

/// The message with the given parts.
pub open spec fn reply(
    status: Status,
    headers: Headers,
    command: Commands,
    game_status: GameStatus,
    data: Seq<char>,
    game_state: GameView,
) -> MsgView {
    MsgView { status, headers, command, game_status, data, game_state }
}

/// The answer to a client that says hello: its name and its id, with `^`
/// between them. A client without a name is not known.
pub open spec fn setup_reply(registry: RegistryView, client: u32) -> MsgView {
    if registry.client_name.contains_key(client) {
        reply(
            Status::Okay,
            Headers::Response,
            Commands::Reply,
            GameStatus::NotInGame,
            registry.client_name[client] + "^"@ + decimal_text(client as nat),
            GameView::placeholder(),
        )
    } else {
        reply(
            Status::NotOkay,
            Headers::Response,
            Commands::Reply,
            GameStatus::NotInGame,
            "unknown client"@,
            GameView::placeholder(),
        )
    }
}

/// The list of games as text: a heading, then one line for each game with
/// its id and its name.
pub open spec fn games_listing(games: Seq<GameView>) -> Seq<char>
    decreases games.len(),
{
    if games.len() == 0 {
        "Available Games: \n"@
    } else {
        games_listing(games.drop_last()) + decimal_text(games.last().game_id as nat) + ": "@
            + games.last().game_name + "\n"@
    }
}

/// The answer to a client that asks for the games.
pub open spec fn games_reply(registry: RegistryView) -> MsgView {
    reply(
        Status::Okay,
        Headers::Response,
        Commands::Reply,
        GameStatus::NotInGame,
        games_listing(registry.games),
        GameView::placeholder(),
    )
}

/// A list of names as text: a heading, then one line for each name.
pub open spec fn users_listing(names: Seq<Seq<char>>) -> Seq<char>
    decreases names.len(),
{
    if names.len() == 0 {
        "Active Users: \n"@
    } else {
        users_listing(names.drop_last()) + names.last() + "\n"@
    }
}

/// Whether `msg` answers a client that asks for the users: it lists the names
/// in use, each once, in some order.
pub open spec fn is_users_reply(registry: RegistryView, msg: MsgView) -> bool {
    exists|names: Seq<Seq<char>>|
        names.to_set() == registry.names && names.no_duplicates() && msg == reply(
            Status::Okay,
            Headers::Response,
            Commands::Reply,
            GameStatus::NotInGame,
            #[trigger] users_listing(names),
            GameView::placeholder(),
        )
}

/// The answer to a client that asks for the name `name`.
pub open spec fn nickname_reply(registry: RegistryView, name: Seq<char>) -> MsgView {
    if registry.names.contains(name) {
        reply(
            Status::NotOkay,
            Headers::Response,
            Commands::SetNick,
            GameStatus::NotInGame,
            "nickname already in use"@,
            GameView::placeholder(),
        )
    } else {
        reply(
            Status::Okay,
            Headers::Response,
            Commands::SetNick,
            GameStatus::NotInGame,
            name,
            GameView::placeholder(),
        )
    }
}

/// Answers a client that says hello.
pub fn initial_setup(registry: &SessionRegistry, client_id: u32) -> (msg: Msg)
    ensures
        msg@ == setup_reply(registry@, client_id),
{
    match registry.name_of(client_id) {
        Some(nickname) => {
            let mut data = nickname;
            data.append("^");
            push_number(&mut data, client_id);
            Msg {
                status: Status::Okay,
                headers: Headers::Response,
                command: Commands::Reply,
                game_status: GameStatus::NotInGame,
                data,
                game_state: GameState::new_empty(),
            }
        },
        None => Msg {
            status: Status::NotOkay,
            headers: Headers::Response,
            command: Commands::Reply,
            game_status: GameStatus::NotInGame,
            data: String::from_str("unknown client"),
            game_state: GameState::new_empty(),
        },
    }
}

/// Answers a client that asks for the games.
pub fn list_active_games(registry: &SessionRegistry) -> (msg: Msg)
    ensures
        msg@ == games_reply(registry@),
{
    let games = registry.list_games();
    let ghost views = games@.map_values(|game: GameState| game@);
    let mut game_list_string = String::from_str("Available Games: \n");
    let mut i: usize = 0;
    while i < games.len()
        invariant
            i <= games.len(),
            views == games@.map_values(|game: GameState| game@),
            game_list_string@ == games_listing(views.subrange(0, i as int)),
        decreases games.len() - i,
    {
        proof {
            let longer = views.subrange(0, i + 1);
            assert(longer.drop_last() =~= views.subrange(0, i as int));
            assert(longer.last() == games[i as int]@);
        }
        push_number(&mut game_list_string, games[i].game_id);
        game_list_string.append(": ");
        game_list_string.append(games[i].game_name.as_str());
        game_list_string.append("\n");
        i += 1;
    }
    assert(views.subrange(0, games.len() as int) =~= views);
    Msg {
        status: Status::Okay,
        headers: Headers::Response,
        command: Commands::Reply,
        game_status: GameStatus::NotInGame,
        data: game_list_string,
        game_state: GameState::new_empty(),
    }
}

/// Answers a client that asks for the users.
pub fn list_active_users(registry: &SessionRegistry) -> (msg: Msg)
    requires
        registry.wf(),
    ensures
        is_users_reply(registry@, msg@),
{
    let names = registry.list_names();
    let ghost texts = names@.map_values(|name: String| name@);
    let mut active_nicks_string = String::from_str("Active Users: \n");
    let mut i: usize = 0;
    while i < names.len()
        invariant
            i <= names.len(),
            texts == names@.map_values(|name: String| name@),
            active_nicks_string@ == users_listing(texts.subrange(0, i as int)),
        decreases names.len() - i,
    {
        proof {
            let longer = texts.subrange(0, i + 1);
            assert(longer.drop_last() =~= texts.subrange(0, i as int));
            assert(longer.last() == names[i as int]@);
        }
        active_nicks_string.append(names[i].as_str());
        active_nicks_string.append("\n");
        i += 1;
    }
    assert(texts.subrange(0, names.len() as int) =~= texts);
    Msg {
        status: Status::Okay,
        headers: Headers::Response,
        command: Commands::Reply,
        game_status: GameStatus::NotInGame,
        data: active_nicks_string,
        game_state: GameState::new_empty(),
    }
}

/// Gives a client the name it asks for, the text of `client_msg`, unless
/// some client holds that name.
pub fn set_nickname(registry: &mut SessionRegistry, client_msg: &Msg, client_id: u32) -> (msg:
    Msg)
    requires
        old(registry).wf(),
    ensures
        msg@ == nickname_reply(old(registry)@, client_msg@.data),
        final(registry)@ == old(registry)@.reserved(client_msg@.data, client_id),
        final(registry).wf(),
{
    let nickname = client_msg.data.clone();
    match registry.reserve_name(nickname.clone(), client_id) {
        Ok(_) => Msg {
            status: Status::Okay,
            headers: Headers::Response,
            command: Commands::SetNick,
            game_status: GameStatus::NotInGame,
            data: nickname,
            game_state: GameState::new_empty(),
        },
        Err(_) => Msg {
            status: Status::NotOkay,
            headers: Headers::Response,
            command: Commands::SetNick,
            game_status: GameStatus::NotInGame,
            data: String::from_str("nickname already in use"),
            game_state: GameState::new_empty(),
        },
    }
}

/// The answer to a client that asks for a new game.
pub open spec fn new_game_reply(registry: RegistryView, client: u32, name: Seq<char>) -> MsgView {
    if registry.games.len() < u32::MAX {
        reply(
            Status::Okay,
            Headers::Response,
            Commands::MakeNewGame,
            GameStatus::InGame,
            "New Game"@,
            registry.new_game(client, name),
        )
    } else {
        reply(
            Status::NotOkay,
            Headers::Response,
            Commands::MakeNewGame,
            GameStatus::NotInGame,
            "too many games"@,
            GameView::placeholder(),
        )
    }
}

/// The registry after a client has asked for a new game.
pub open spec fn after_new_game(registry: RegistryView, client: u32, name: Seq<char>)
    -> RegistryView {
    if registry.games.len() < u32::MAX {
        registry.with_new_game(client, name)
    } else {
        registry
    }
}

/// The game that `text` names in `registry`: the one whose id `text` is, in
/// decimal digits, if there is one.
pub open spec fn game_named(registry: RegistryView, text: Seq<char>) -> Option<u32> {
    match parsed_number(text) {
        Some(game_id) => if game_id < registry.games.len() {
            Some(game_id)
        } else {
            None
        },
        None => None,
    }
}

/// The answer to a client that asks to join the game that `text` names.
pub open spec fn join_reply(registry: RegistryView, client: u32, text: Seq<char>) -> MsgView {
    match game_named(registry, text) {
        Some(game_id) => {
            let game = registry.games[game_id as int].joined(client);
            reply(
                Status::Okay,
                Headers::Response,
                Commands::JoinGame,
                GameStatus::InGame,
                "Joined Game "@ + game.game_name,
                game,
            )
        },
        None => reply(
            Status::NotOkay,
            Headers::Response,
            Commands::JoinGame,
            GameStatus::NotInGame,
            "unknown game"@,
            GameView::placeholder(),
        ),
    }
}

/// The registry after a client has asked to join the game that `text` names.
pub open spec fn after_join(registry: RegistryView, client: u32, text: Seq<char>) -> RegistryView {
    match game_named(registry, text) {
        Some(game_id) => registry.with_join(client, game_id),
        None => registry,
    }
}

/// The answer to a client that goes: it names the name that is given up, or
/// no name where the client held none.
pub open spec fn disconnect_reply(registry: RegistryView, client: u32) -> MsgView {
    reply(
        Status::Okay,
        Headers::Response,
        Commands::KillClient,
        GameStatus::NotInGame,
        "Nick "@ + (if registry.client_name.contains_key(client) {
            registry.client_name[client]
        } else {
            Seq::empty()
        }) + " successfully booted"@,
        GameView::placeholder(),
    )
}

/// The answer to a command that the server does not take from a client at the menu.
pub open spec fn unknown_command_reply() -> MsgView {
    reply(
        Status::NotOkay,
        Headers::Response,
        Commands::Reply,
        GameStatus::NotInGame,
        Seq::empty(),
        GameView::placeholder(),
    )
}

/// Makes a new game for a client and sends the client to its board.
pub fn start_new_game(registry: &mut SessionRegistry, client_id: u32, game_name: String) -> (msg:
    Msg)
    requires
        old(registry).wf(),
    ensures
        msg@ == new_game_reply(old(registry)@, client_id, game_name@),
        final(registry)@ == after_new_game(old(registry)@, client_id, game_name@),
        final(registry).wf(),
{
    if registry.game_count() >= u32::MAX as usize {
        return Msg {
            status: Status::NotOkay,
            headers: Headers::Response,
            command: Commands::MakeNewGame,
            game_status: GameStatus::NotInGame,
            data: String::from_str("too many games"),
            game_state: GameState::new_empty(),
        };
    }
    let new_game = registry.create_game(client_id, game_name);
    Msg {
        status: Status::Okay,
        headers: Headers::Response,
        command: Commands::MakeNewGame,
        game_status: GameStatus::InGame,
        data: String::from_str("New Game"),
        game_state: new_game,
    }
}

/// Seats a client in the game that the text of `client_msg` names.
pub fn join_game(registry: &mut SessionRegistry, client_id: u32, client_msg: &Msg) -> (msg: Msg)
    requires
        old(registry).wf(),
    ensures
        msg@ == join_reply(old(registry)@, client_id, client_msg@.data),
        final(registry)@ == after_join(old(registry)@, client_id, client_msg@.data),
        final(registry).wf(),
{
    let joined = match parse_number(client_msg.data.as_str()) {
        Some(game_id) => registry.join_game(client_id, game_id),
        None => Err(crate::registry::JoinError::UnknownGame),
    };
    match joined {
        Ok(game) => {
            let mut data = String::from_str("Joined Game ");
            data.append(game.game_name.as_str());
            Msg {
                status: Status::Okay,
                headers: Headers::Response,
                command: Commands::JoinGame,
                game_status: GameStatus::InGame,
                data,
                game_state: game,
            }
        },
        Err(_) => Msg {
            status: Status::NotOkay,
            headers: Headers::Response,
            command: Commands::JoinGame,
            game_status: GameStatus::NotInGame,
            data: String::from_str("unknown game"),
            game_state: GameState::new_empty(),
        },
    }
}

/// Forgets a client that goes.
pub fn client_disconnect(registry: &mut SessionRegistry, client_id: u32) -> (msg: Msg)
    requires
        old(registry).wf(),
    ensures
        msg@ == disconnect_reply(old(registry)@, client_id),
        final(registry)@ == old(registry)@.without_client(client_id),
        final(registry).wf(),
{
    let mut data = String::from_str("Nick ");
    match registry.name_of(client_id) {
        Some(nickname) => {
            data.append(nickname.as_str());
        },
        None => {
            assert(data@ + Seq::<char>::empty() =~= data@);
        },
    }
    data.append(" successfully booted");
    registry.remove_client(client_id);
    Msg {
        status: Status::Okay,
        headers: Headers::Response,
        command: Commands::KillClient,
        game_status: GameStatus::NotInGame,
        data,
        game_state: GameState::new_empty(),
    }
}

/// Answers a command from a client at the menu.
pub fn handle_out_of_game(
    cmd: Commands,
    registry: &mut SessionRegistry,
    client_msg: &Msg,
    client_id: u32,
) -> (msg: Msg)
    requires
        old(registry).wf(),
    ensures
        final(registry).wf(),
        match cmd {
            Commands::InitSetup => msg@ == setup_reply(old(registry)@, client_id)
                && final(registry)@ == old(registry)@,
            Commands::ListGames => msg@ == games_reply(old(registry)@) && final(registry)@ == old(
                registry,
            )@,
            Commands::ListUsers => is_users_reply(old(registry)@, msg@) && final(registry)@ == old(
                registry,
            )@,
            Commands::SetNick => msg@ == nickname_reply(old(registry)@, client_msg@.data)
                && final(registry)@ == old(registry)@.reserved(client_msg@.data, client_id),
            Commands::KillMe => msg@ == disconnect_reply(old(registry)@, client_id)
                && final(registry)@ == old(registry)@.without_client(client_id),
            Commands::MakeNewGame => msg@ == new_game_reply(
                old(registry)@,
                client_id,
                client_msg@.data,
            ) && final(registry)@ == after_new_game(old(registry)@, client_id, client_msg@.data),
            Commands::JoinGame => msg@ == join_reply(old(registry)@, client_id, client_msg@.data)
                && final(registry)@ == after_join(old(registry)@, client_id, client_msg@.data),
            _ => msg@ == unknown_command_reply() && final(registry)@ == old(registry)@,
        },
{
    match cmd {
        Commands::InitSetup => initial_setup(registry, client_id),
        Commands::ListGames => list_active_games(registry),
        Commands::ListUsers => list_active_users(registry),
        Commands::SetNick => set_nickname(registry, client_msg, client_id),
        Commands::KillMe => client_disconnect(registry, client_id),
        Commands::MakeNewGame => start_new_game(registry, client_id, client_msg.data.clone()),
        Commands::JoinGame => join_game(registry, client_id, client_msg),
        _ => Msg {
            status: Status::NotOkay,
            headers: Headers::Response,
            command: Commands::Reply,
            game_status: GameStatus::NotInGame,
            data: String::new(),
            game_state: GameState::new_empty(),
        },
    }
}

/// The answer that shows a client its game.
pub open spec fn state_reply(game: GameView) -> MsgView {
    reply(
        Status::Okay,
        Headers::Read,
        Commands::Reply,
        GameStatus::InGame,
        "Current Game State"@,
        game,
    )
}

/// The pit that `text` asks for: the number it denotes, or 14, which is no
/// pit, where it denotes none.
pub open spec fn pit_asked(text: Seq<char>) -> int {
    match parsed_number(text) {
        Some(pit) => pit as int,
        None => 14,
    }
}

/// The answer to a move that the rules judged by `verdict`, in the game that
/// is `game` after it: the game as it is, and the reason where the move was
/// refused.
pub open spec fn move_reply(verdict: Result<(), MoveError>, game: GameView) -> MsgView {
    match verdict {
        Ok(_) => state_reply(game),
        Err(MoveError::InvalidPit) => reply(
            Status::NotOkay,
            Headers::Read,
            Commands::Reply,
            GameStatus::InGame,
            "invalid pit"@,
            game,
        ),
        Err(MoveError::GameAlreadyOver) => reply(
            Status::NotOkay,
            Headers::Read,
            Commands::Reply,
            GameStatus::InGame,
            "game already over"@,
            game,
        ),
    }
}

/// The answer to a client that leaves its game.
pub open spec fn leave_reply() -> MsgView {
    reply(
        Status::Okay,
        Headers::Response,
        Commands::LeaveGame,
        GameStatus::NotInGame,
        "Left Game"@,
        GameView::placeholder(),
    )
}

/// The answer to a client at a board that is bound to no game.
pub open spec fn not_bound_reply() -> MsgView {
    reply(
        Status::NotOkay,
        Headers::Read,
        Commands::Reply,
        GameStatus::NotInGame,
        "not in a game"@,
        GameView::placeholder(),
    )
}

/// Whether a game has ended and both players are still there to be told.
pub open spec fn is_finished(game: GameView) -> bool {
    game.player_one != 0 && game.player_two != 0 && !game.active
}

/// The answer to a command from a client at a board.
pub open spec fn in_game_reply(
    registry: RegistryView,
    cmd: Commands,
    text: Seq<char>,
    client: u32,
) -> MsgView {
    match registry.game_of(client) {
        None => not_bound_reply(),
        Some(game) => if is_finished(game) {
            reply(
                Status::Okay,
                Headers::Write,
                Commands::GameIsOver,
                GameStatus::NotInGame,
                "Game Over"@,
                game,
            )
        } else {
            match cmd {
                Commands::GetCurrentGamestate => state_reply(game),
                Commands::MakeMove => move_reply(
                    game.move_check(pit_asked(text)),
                    game.after_move(pit_asked(text)),
                ),
                Commands::LeaveGame => leave_reply(),
                _ => reply(
                    Status::NotOkay,
                    Headers::Read,
                    Commands::Reply,
                    GameStatus::NotInGame,
                    "Somethings wrong"@,
                    game,
                ),
            }
        },
    }
}

/// The registry after a command from a client at a board. Only a move and a
/// leave change it, and neither does once the game has ended with both
/// players there.
pub open spec fn after_in_game(
    registry: RegistryView,
    cmd: Commands,
    text: Seq<char>,
    client: u32,
) -> RegistryView {
    match registry.game_of(client) {
        None => registry,
        Some(game) => if is_finished(game) {
            registry
        } else {
            match cmd {
                Commands::MakeMove => registry.with_move(client, pit_asked(text)),
                Commands::LeaveGame => registry.without_client(client),
                _ => registry,
            }
        },
    }
}

/// Tells a client that it is bound to no game.
fn not_in_game() -> (msg: Msg)
    ensures
        msg@ == not_bound_reply(),
{
    Msg {
        status: Status::NotOkay,
        headers: Headers::Read,
        command: Commands::Reply,
        game_status: GameStatus::NotInGame,
        data: String::from_str("not in a game"),
        game_state: GameState::new_empty(),
    }
}

/// Shows a client its game.
pub fn current_state(game: &GameState) -> (msg: Msg)
    ensures
        msg@ == state_reply(game@),
{
    Msg {
        status: Status::Okay,
        headers: Headers::Read,
        command: Commands::Reply,
        game_status: GameStatus::InGame,
        data: String::from_str("Current Game State"),
        game_state: game.clone(),
    }
}

/// The pit that the text of a message asks for.
fn read_pit(client_msg: &Msg) -> (pit: usize)
    ensures
        pit == pit_asked(client_msg@.data),
{
    match parse_number(client_msg.data.as_str()) {
        Some(pit) => pit as usize,
        None => BOARD_LENGTH,
    }
}

/// Tells a client what became of its move.
fn answer_move(verdict: Result<(), MoveError>, game: GameState) -> (msg: Msg)
    ensures
        msg@ == move_reply(verdict, game@),
{
    match verdict {
        Ok(_) => current_state(&game),
        Err(MoveError::InvalidPit) => Msg {
            status: Status::NotOkay,
            headers: Headers::Read,
            command: Commands::Reply,
            game_status: GameStatus::InGame,
            data: String::from_str("invalid pit"),
            game_state: game,
        },
        Err(MoveError::GameAlreadyOver) => Msg {
            status: Status::NotOkay,
            headers: Headers::Read,
            command: Commands::Reply,
            game_status: GameStatus::InGame,
            data: String::from_str("game already over"),
            game_state: game,
        },
    }
}

/// Makes in `game` the move that the text of `client_msg` asks for, if the
/// rules accept it, and answers with the game as it is then.
pub fn make_move(client_msg: &Msg, game: &mut GameState) -> (msg: Msg)
    requires
        old(game).wf(),
    ensures
        final(game)@ == old(game)@.after_move(pit_asked(client_msg@.data)),
        msg@ == move_reply(old(game)@.move_check(pit_asked(client_msg@.data)), final(game)@),
        final(game).wf(),
{
    let move_to_make: usize = read_pit(client_msg);
    let verdict = game.apply_move(move_to_make);
    answer_move(verdict, game.clone())
}

/// Lets a client leave its game, and forgets the client.
pub fn leave_game(registry: &mut SessionRegistry, client_id: u32) -> (msg: Msg)
    requires
        old(registry).wf(),
    ensures
        msg@ == leave_reply(),
        final(registry)@ == old(registry)@.without_client(client_id),
        final(registry).wf(),
{
    registry.remove_client(client_id);
    Msg {
        status: Status::Okay,
        headers: Headers::Response,
        command: Commands::LeaveGame,
        game_status: GameStatus::NotInGame,
        data: String::from_str("Left Game"),
        game_state: GameState::new_empty(),
    }
}

/// Answers a command from a client at a board.
pub fn handle_in_game(
    cmd: Commands,
    registry: &mut SessionRegistry,
    client_msg: &Msg,
    client_id: u32,
) -> (msg: Msg)
    requires
        old(registry).wf(),
    ensures
        msg@ == in_game_reply(old(registry)@, cmd, client_msg@.data, client_id),
        final(registry)@ == after_in_game(old(registry)@, cmd, client_msg@.data, client_id),
        final(registry).wf(),
{
    let game = match registry.lookup_game_for(client_id) {
        Ok(game) => game,
        Err(_) => {
            return not_in_game();
        },
    };
    if game.player_one != 0 && game.player_two != 0 && !game.active {
        return Msg {
            status: Status::Okay,
            headers: Headers::Write,
            command: Commands::GameIsOver,
            game_status: GameStatus::NotInGame,
            data: String::from_str("Game Over"),
            game_state: game,
        };
    }
    match cmd {
        Commands::GetCurrentGamestate => current_state(&game),
        Commands::MakeMove => {
            let move_to_make: usize = read_pit(client_msg);
            match registry.apply_move_for(client_id, move_to_make) {
                Ok((verdict, moved)) => answer_move(verdict, moved),
                Err(_) => not_in_game(),
            }
        },
        Commands::LeaveGame => leave_game(registry, client_id),
        _ => Msg {
            status: Status::NotOkay,
            headers: Headers::Read,
            command: Commands::Reply,
            game_status: GameStatus::NotInGame,
            data: String::from_str("Somethings wrong"),
            game_state: game,
        },
    }
}

} // verus!
