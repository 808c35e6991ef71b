//! What a client sends, and what it does with what the server answers.
//!
//! Nothing here reads or prints. The program that talks to the user reads a
//! line, hands it over, and acts on what comes back.

use vstd::prelude::*;
use vstd::string::StringExecFns;
use crate::constants::BOARD_LENGTH;
use crate::game_objects::{GameState, GameView};
use crate::proto::{Commands, GameStatus, Headers, Msg, MsgView, Status};
use crate::text::{decimal_text, parse_number, parsed_number, push_number};

verus! {

/// The message that a client sends to ask for `command`, with `data` as its text.
pub open spec fn request(
    headers: Headers,
    command: Commands,
    game_status: GameStatus,
    data: Seq<char>,
) -> MsgView {
    MsgView {
        status: Status::Okay,
        headers,
        command,
        game_status,
        data,
        game_state: GameView::placeholder(),
    }
}

/// Builds the message that asks for `command`, with `data` as its text.
fn ask(headers: Headers, command: Commands, game_status: GameStatus, data: String) -> (msg: Msg)
    ensures
        msg@ == request(headers, command, game_status, data@),
{
    Msg {
        status: Status::Okay,
        headers,
        command,
        game_status,
        data,
        game_state: GameState::new_empty(),
    }
}

/// The address of a server: the host, a colon, and the port in decimal digits.
pub open spec fn address(host: Seq<char>, port: u32) -> Seq<char> {
    host + ":"@ + decimal_text(port as nat)
}

/// Puts the address of a server together from the host and the port that the
/// user gave. Text that denotes no number gives no address.
pub fn server_address(host: &str, port: &str) -> (connection: Option<String>)
    ensures
        match connection {
            Some(text) => parsed_number(port@) matches Some(number) && text@ == address(
                host@,
                number,
            ),
            None => parsed_number(port@) is None,
        },
{
    match parse_number(port) {
        Some(number) => {
            let mut text = String::from_str(host);
            text.append(":");
            push_number(&mut text, number);
            Some(text)
        },
        None => None,
    }
}

/// The first message of a client: hello.
pub fn initial_hello_msg() -> (msg: Msg)
    ensures
        msg@ == request(
            Headers::Write,
            Commands::InitSetup,
            GameStatus::NotInGame,
            Seq::empty(),
        ),
{
    ask(Headers::Write, Commands::InitSetup, GameStatus::NotInGame, String::new())
}

/// What the user can pick at the menu.
#[derive(Debug, Clone, Copy, PartialEq, Eq, Structural)]
pub enum MenuChoice {
    ChangeNickname,
    ListActiveGames,
    ListActiveUsers,
    StartNewGame,
    JoinGame,
    Disconnect,
}

/// Why what the user typed at the menu picks nothing.
#[derive(Debug, Clone, Copy, PartialEq, Eq, Structural)]
pub enum MenuError {
    /// The text denotes no number from 0 to 255.
    NotANumber,
    /// The menu has no entry with that number.
    NoSuchEntry,
}

/// The menu entry with the given number, the entries being numbered from 1 to 6.
pub open spec fn menu_entry(number: u32) -> Option<MenuChoice> {
    if number == 1 {
        Some(MenuChoice::ChangeNickname)
    } else if number == 2 {
        Some(MenuChoice::ListActiveGames)
    } else if number == 3 {
        Some(MenuChoice::ListActiveUsers)
    } else if number == 4 {
        Some(MenuChoice::StartNewGame)
    } else if number == 5 {
        Some(MenuChoice::JoinGame)
    } else if number == 6 {
        Some(MenuChoice::Disconnect)
    } else {
        None
    }
}

/// What the user picked by typing `selection`: the menu entry whose number
/// the text denotes. Text that denotes no number up to 255 is no number, and
/// a number without an entry picks nothing.
pub open spec fn picked(selection: Seq<char>) -> Result<MenuChoice, MenuError> {
    match parsed_number(selection) {
        Some(number) => if number > 255 {
            Err(MenuError::NotANumber)
        } else {
            match menu_entry(number) {
                Some(choice) => Ok(choice),
                None => Err(MenuError::NoSuchEntry),
            }
        },
        None => Err(MenuError::NotANumber),
    }
}

/// Reads what the user picked at the menu.
pub fn menu_choice(selection: &str) -> (choice: Result<MenuChoice, MenuError>)
    ensures
        choice == picked(selection@),
{
    match parse_number(selection) {
        Some(1) => Ok(MenuChoice::ChangeNickname),
        Some(2) => Ok(MenuChoice::ListActiveGames),
        Some(3) => Ok(MenuChoice::ListActiveUsers),
        Some(4) => Ok(MenuChoice::StartNewGame),
        Some(5) => Ok(MenuChoice::JoinGame),
        Some(6) => Ok(MenuChoice::Disconnect),
        Some(number) => if number > 255 {
            Err(MenuError::NotANumber)
        } else {
            Err(MenuError::NoSuchEntry)
        },
        None => Err(MenuError::NotANumber),
    }
}

/// Asks for the games.
pub fn list_active_games() -> (msg: Msg)
    ensures
        msg@ == request(Headers::Read, Commands::ListGames, GameStatus::NotInGame, Seq::empty()),
{
    ask(Headers::Read, Commands::ListGames, GameStatus::NotInGame, String::new())
}

/// Asks for the users.
pub fn list_active_users() -> (msg: Msg)
    ensures
        msg@ == request(Headers::Read, Commands::ListUsers, GameStatus::NotInGame, Seq::empty()),
{
    ask(Headers::Read, Commands::ListUsers, GameStatus::NotInGame, String::new())
}

/// Asks to join the game whose id the user typed.
pub fn join_game(game_id: String) -> (msg: Msg)
    ensures
        msg@ == request(Headers::Write, Commands::JoinGame, GameStatus::NotInGame, game_id@),
{
    ask(Headers::Write, Commands::JoinGame, GameStatus::NotInGame, game_id)
}

/// Asks for the nickname that the user typed.
pub fn set_nickname(nickname: String) -> (msg: Msg)
    ensures
        msg@ == request(Headers::Write, Commands::SetNick, GameStatus::NotInGame, nickname@),
{
    ask(Headers::Write, Commands::SetNick, GameStatus::NotInGame, nickname)
}

/// Asks for a new game with the name that the user typed.
pub fn start_new_game(game_name: String) -> (msg: Msg)
    ensures
        msg@ == request(Headers::Write, Commands::MakeNewGame, GameStatus::NotInGame, game_name@),
{
    ask(Headers::Write, Commands::MakeNewGame, GameStatus::NotInGame, game_name)
}

/// Says goodbye.
pub fn client_disconnect() -> (msg: Msg)
    ensures
        msg@ == request(Headers::Read, Commands::KillMe, GameStatus::NotInGame, Seq::empty()),
{
    ask(Headers::Read, Commands::KillMe, GameStatus::NotInGame, String::new())
}

/// Asks for the game as it is now.
pub fn get_current_gamestate() -> (msg: Msg)
    ensures
        msg@ == request(
            Headers::Read,
            Commands::GetCurrentGamestate,
            GameStatus::InGame,
            Seq::empty(),
        ),
{
    ask(Headers::Read, Commands::GetCurrentGamestate, GameStatus::InGame, String::new())
}

/// Asks for a move from the slot that the user typed.
pub fn make_move(move_to_make: String) -> (msg: Msg)
    ensures
        msg@ == request(Headers::Write, Commands::MakeMove, GameStatus::InGame, move_to_make@),
{
    ask(Headers::Write, Commands::MakeMove, GameStatus::InGame, move_to_make)
}

/// Asks to leave the game.
pub fn leave_game() -> (msg: Msg)
    ensures
        msg@ == request(Headers::Write, Commands::LeaveGame, GameStatus::InGame, Seq::empty()),
{
    ask(Headers::Write, Commands::LeaveGame, GameStatus::InGame, String::new())
}

/// What a client at a board does next.
#[derive(Debug, Clone, Copy, PartialEq, Eq, Structural)]
pub enum InGameStep {
    /// The server refused: say goodbye.
    GiveUp,
    /// The game has ended: show the board and leave.
    ShowResult,
    /// The second player has not come: wait, then ask again.
    AwaitOpponent,
    /// The other player is to move: show the board, wait, then ask again.
    AwaitTurn,
    /// This player is to move: show the board and ask the user for a slot.
    AskForMove,
}

/// What the client `my_id` does after `server_msg`. A client that is not
/// player one counts as player two.
pub open spec fn next_step(server_msg: MsgView, my_id: u32) -> InGameStep {
    if server_msg.status != Status::Okay {
        InGameStep::GiveUp
    } else if server_msg.command == Commands::GameIsOver {
        InGameStep::ShowResult
    } else if !server_msg.game_state.active {
        InGameStep::AwaitOpponent
    } else if (my_id == server_msg.game_state.player_one)
        == server_msg.game_state.player_one_turn {
        InGameStep::AskForMove
    } else {
        InGameStep::AwaitTurn
    }
}

/// Decides what a client at a board does after `server_msg`.
pub fn in_game_step(server_msg: &Msg, my_id: u32) -> (step: InGameStep)
    ensures
        step == next_step(server_msg@, my_id),
{
    if server_msg.status != Status::Okay {
        return InGameStep::GiveUp;
    }
    if server_msg.command == Commands::GameIsOver {
        return InGameStep::ShowResult;
    }
    if !server_msg.game_state.active {
        return InGameStep::AwaitOpponent;
    }
    let am_i_player_one: bool = my_id == server_msg.game_state.player_one;
    if am_i_player_one == server_msg.game_state.player_one_turn {
        InGameStep::AskForMove
    } else {
        InGameStep::AwaitTurn
    }
}

/// The message that a step sends without asking the user, if it sends one:
/// goodbye after a refusal, leave after the end, and a question for the game
/// after each wait.
pub open spec fn step_request(step: InGameStep) -> Option<MsgView> {
    match step {
        InGameStep::GiveUp => Some(
            request(Headers::Read, Commands::KillMe, GameStatus::NotInGame, Seq::empty()),
        ),
        InGameStep::ShowResult => Some(
            request(Headers::Write, Commands::LeaveGame, GameStatus::InGame, Seq::empty()),
        ),
        InGameStep::AwaitOpponent | InGameStep::AwaitTurn => Some(
            request(
                Headers::Read,
                Commands::GetCurrentGamestate,
                GameStatus::InGame,
                Seq::empty(),
            ),
        ),
        InGameStep::AskForMove => None,
    }
}

/// Builds the message that a step sends without asking the user.
pub fn step_message(step: InGameStep) -> (msg: Option<Msg>)
    ensures
        match msg {
            Some(sent) => step_request(step) == Some(sent@),
            None => step_request(step) is None,
        },
{
    match step {
        InGameStep::GiveUp => Some(client_disconnect()),
        InGameStep::ShowResult => Some(leave_game()),
        InGameStep::AwaitOpponent => Some(get_current_gamestate()),
        InGameStep::AwaitTurn => Some(get_current_gamestate()),
        InGameStep::AskForMove => None,
    }
}

/// The nickname of a client after `server_msg`: the text of the message where
/// the server has granted a nickname, else the nickname as it was.
pub open spec fn nickname_after(server_msg: MsgView, nickname: Seq<char>) -> Seq<char> {
    if server_msg.command == Commands::SetNick && server_msg.status == Status::Okay {
        server_msg.data
    } else {
        nickname
    }
}

/// Takes note of what the server answered: keeps the nickname that it
/// granted, and tells whether the client is at a board.
pub fn note_server_response(server_msg: &Msg, nickname: &mut String) -> (in_game: bool)
    ensures
        final(nickname)@ == nickname_after(server_msg@, old(nickname)@),
        in_game == (server_msg.game_status != GameStatus::NotInGame),
{
    if server_msg.command == Commands::SetNick {
        if server_msg.status == Status::Okay {
            *nickname = server_msg.data.clone();
        }
    }
    match server_msg.game_status {
        GameStatus::NotInGame => false,
        _ => true,
    }
}

/// The counts of `pits` in decimal digits, with a comma and a blank between
/// two counts.
pub open spec fn pits_listing(pits: Seq<int>) -> Seq<char>
    decreases pits.len(),
{
    if pits.len() == 0 {
        Seq::empty()
    } else if pits.len() == 1 {
        decimal_text(pits[0] as nat)
    } else {
        pits_listing(pits.drop_last()) + ", "@ + decimal_text(pits.last() as nat)
    }
}

/// A game as the user sees it: the board in square brackets on one line, then
/// one line for the score of each player.
pub open spec fn board_display(game: GameView) -> Seq<char> {
    "["@ + pits_listing(game.pits) + "]\nPlayer One score: "@ + decimal_text(
        game.pits[game.player_one_goal_slot] as nat,
    ) + "\nPlayer Two score: "@ + decimal_text(game.pits[game.player_two_goal_slot] as nat)
        + "\n"@
}

/// Writes out the game that `msg` carries, for the user to read.
pub fn render_board(msg: &Msg) -> (display: String)
    requires
        msg.game_state.player_one_goal_slot < BOARD_LENGTH,
        msg.game_state.player_two_goal_slot < BOARD_LENGTH,
    ensures
        display@ == board_display(msg@.game_state),
{
    let board = msg.game_state.get_board();
    let ghost pits = msg@.game_state.pits;
    let mut display = String::from_str("[");
    let mut slot: usize = 0;
    assert("["@ + pits_listing(pits.subrange(0, 0)) =~= "["@);
    while slot < BOARD_LENGTH
        invariant
            slot <= BOARD_LENGTH,
            pits == msg@.game_state.pits,
            board == msg.game_state.game_board,
            display@ == "["@ + pits_listing(pits.subrange(0, slot as int)),
        decreases BOARD_LENGTH - slot,
    {
        proof {
            let shorter = pits.subrange(0, slot as int);
            let longer = pits.subrange(0, slot + 1);
            let count = decimal_text(board[slot as int] as nat);
            assert(longer.drop_last() =~= shorter);
            assert(longer.last() == board[slot as int]);
            if slot > 0 {
                assert("["@ + pits_listing(shorter) + ", "@ + count =~= "["@ + pits_listing(
                    longer,
                ));
            } else {
                assert(pits_listing(shorter) =~= Seq::<char>::empty());
                assert("["@ + pits_listing(shorter) + count =~= "["@ + pits_listing(longer));
            }
        }
        if slot > 0 {
            display.append(", ");
        }
        push_number(&mut display, board[slot] as u32);
        slot += 1;
    }
    assert(pits.subrange(0, BOARD_LENGTH as int) =~= pits);
    display.append("]\nPlayer One score: ");
    push_number(&mut display, msg.game_state.get_player_one_score() as u32);
    display.append("\nPlayer Two score: ");
    push_number(&mut display, msg.game_state.get_player_two_score() as u32);
    display.append("\n");
    display
}

} // verus!
