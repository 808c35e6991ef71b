//! The directory of games in progress, of the clients bound to them and of the
//! names that clients have reserved.
//!
//! A registry is a plain value: whoever shares one between threads keeps it
//! behind a lock and calls these methods while holding it, so that each call
//! is one atomic step.

use std::collections::HashMap;
use vstd::hash_set::StringHashSet;
use vstd::prelude::*;
use vstd::std_specs::hash::spec_keys_iter;
use vstd::std_specs::iter::IteratorSpec;
use vstd::string::StringExecFns;
use crate::game_objects::{
    lemma_stones_are_conserved, GameEvent, GameState, GameView, MoveError,
};

verus! {

/// A name could not be reserved: some client holds it.
#[derive(Debug, Clone, Copy, PartialEq, Eq, Structural)]
pub struct NameTaken;

/// The client is bound to no game.
#[derive(Debug, Clone, Copy, PartialEq, Eq, Structural)]
pub struct NotBound;

/// Why a client could not join a game.
#[derive(Debug, Clone, Copy, PartialEq, Eq, Structural)]
pub enum JoinError {
    /// No game has the given id.
    UnknownGame,
}

/// Whether some client holds `name` according to `client_name`.
pub open spec fn is_held(client_name: Map<u32, Seq<char>>, name: Seq<char>) -> bool {
    exists|client: u32| client_name.contains_key(client) && #[trigger] client_name[client] == name
}

/// The games, the bindings and the names that a `SessionRegistry` holds.
pub struct RegistryView {
    /// The games, each at the index that is its id.
    pub games: Seq<GameView>,
    /// For each bound client, the id of its game.
    pub client_game: Map<u32, u32>,
    /// For each named client, its name.
    pub client_name: Map<u32, Seq<char>>,
    /// The names in use.
    pub names: Set<Seq<char>>,
}

impl RegistryView {
    /// What holds of every registry: a game's id is its index, moves can be
    /// made in every game, a bound client is bound to a game that exists, the
    /// names in use are the names that clients hold, and no two clients hold
    /// the same name.
    pub open spec fn consistent(self) -> bool {
        &&& self.games.len() <= u32::MAX
        &&& forall|i: int|
            0 <= i < self.games.len() ==> (#[trigger] self.games[i]).game_id == i
                && self.games[i].playable()
        &&& forall|client: u32| #[trigger]
            self.client_game.contains_key(client) ==> self.client_game[client]
                < self.games.len()
        &&& forall|name: Seq<char>| #[trigger]
            self.names.contains(name) <==> is_held(self.client_name, name)
        &&& forall|a: u32, b: u32|
            self.client_name.contains_key(a) && self.client_name.contains_key(b)
                && #[trigger] self.client_name[a] == #[trigger] self.client_name[b] ==> a == b
    }

    /// The registry with no game and no client.
    pub open spec fn empty() -> RegistryView {
        RegistryView {
            games: Seq::empty(),
            client_game: Map::empty(),
            client_name: Map::empty(),
            names: Set::empty(),
        }
    }

    /// The names in use once `client` has given up the name it holds, if any.
    pub open spec fn names_without(self, client: u32) -> Set<Seq<char>> {
        if self.client_name.contains_key(client) {
            self.names.remove(self.client_name[client])
        } else {
            self.names
        }
    }

    /// The registry after `client` has asked for `name`: if no client holds
    /// the name, `client` gives up the name it held and holds `name`; if some
    /// client holds it, `client` itself included, nothing changes.
    pub open spec fn reserved(self, name: Seq<char>, client: u32) -> RegistryView {
        if self.names.contains(name) {
            self
        } else {
            RegistryView {
                client_name: self.client_name.insert(client, name),
                names: self.names_without(client).insert(name),
                ..self
            }
        }
    }

    /// The name that a new game gets: the name asked for, or "New Game" where
    /// none was given.
    pub open spec fn game_name(name: Seq<char>) -> Seq<char> {
        if name.len() == 0 {
            "New Game"@
        } else {
            name
        }
    }

    /// The game that `client` gets when it asks for a new game called `name`.
    pub open spec fn new_game(self, client: u32, name: Seq<char>) -> GameView {
        GameView::fresh(client, Self::game_name(name), self.games.len() as u32)
    }

    /// The registry after `client` has made a new game called `name`: the game
    /// stands last, with the next free id, and `client` is bound to it.
    pub open spec fn with_new_game(self, client: u32, name: Seq<char>) -> RegistryView {
        RegistryView {
            games: self.games.push(self.new_game(client, name)),
            client_game: self.client_game.insert(client, self.games.len() as u32),
            ..self
        }
    }

    /// The registry after `client` has asked to join the game `game_id`: if
    /// the game exists, `client` takes a free slot in it, if it has one, and
    /// is bound to it; if not, nothing changes.
    pub open spec fn with_join(self, client: u32, game_id: u32) -> RegistryView {
        if game_id < self.games.len() {
            RegistryView {
                games: self.games.update(game_id as int, self.games[game_id as int].joined(client)),
                client_game: self.client_game.insert(client, game_id),
                ..self
            }
        } else {
            self
        }
    }

    /// The game that `client` is bound to, if it is bound to one.
    pub open spec fn game_of(self, client: u32) -> Option<GameView> {
        if self.client_game.contains_key(client) {
            Some(self.games[self.client_game[client] as int])
        } else {
            None
        }
    }

    /// The registry after `client` has asked for a move from `pit` in the game
    /// it is bound to: the game is as the rules leave it; with no such game
    /// nothing changes.
    pub open spec fn with_move(self, client: u32, pit: int) -> RegistryView {
        if self.client_game.contains_key(client) {
            let game_id = self.client_game[client] as int;
            RegistryView {
                games: self.games.update(game_id, self.games[game_id].after_move(pit)),
                ..self
            }
        } else {
            self
        }
    }

    /// The registry after `client` has gone: its name is free, it is bound to
    /// no game, and the game it was bound to has let it go.
    pub open spec fn without_client(self, client: u32) -> RegistryView {
        RegistryView {
            games: if self.client_game.contains_key(client) {
                let game_id = self.client_game[client] as int;
                self.games.update(game_id, self.games[game_id].left(client))
            } else {
                self.games
            },
            client_game: self.client_game.remove(client),
            client_name: self.client_name.remove(client),
            names: self.names_without(client),
        }
    }
}

/// The directory of games, bindings and names.
pub struct SessionRegistry {
    games: Vec<GameState>,
    client_game: HashMap<u32, u32>,
    client_name: HashMap<u32, String>,
    names: StringHashSet,
}

impl View for SessionRegistry {
    type V = RegistryView;

    closed spec fn view(&self) -> RegistryView {
        RegistryView {
            games: self.games@.map_values(|game: GameState| game@),
            client_game: self.client_game@,
            client_name: self.client_name@.map_values(|name: String| name@),
            names: self.names@,
        }
    }
}

impl SessionRegistry {
    /// Whether the registry is as every registry is: see
    /// `RegistryView::consistent`.
    pub open spec fn wf(&self) -> bool {
        self@.consistent()
    }

    /// A registry with no game and no client.
    pub fn new() -> (registry: SessionRegistry)
        ensures
            registry@ == RegistryView::empty(),
            registry.wf(),
    {
        let registry = SessionRegistry {
            games: Vec::new(),
            client_game: HashMap::new(),
            client_name: HashMap::new(),
            names: StringHashSet::new(),
        };
        assert(registry@.games =~= Seq::empty());
        assert(registry@.client_name =~= Map::empty());
        registry
    }

    /// Reserves `name` for `client_id`, unless some client holds it already.
    /// A client that held another name gives that name up.
    pub fn reserve_name(&mut self, name: String, client_id: u32) -> (outcome: Result<
        (),
        NameTaken,
    >)
        requires
            old(self).wf(),
        ensures
            outcome is Err <==> old(self)@.names.contains(name@),
            final(self)@ == old(self)@.reserved(name@, client_id),
            final(self).wf(),
    {
        if self.names.contains(name.as_str()) {
            return Err(NameTaken);
        }
        match self.client_name.remove(&client_id) {
            Some(old_nick) => {
                self.names.remove(old_nick.as_str());
            },
            None => {},
        }
        self.names.insert(name.clone());
        self.client_name.insert(client_id, name);
        proof {
            assert(self@.client_name =~= old(self)@.client_name.insert(client_id, name@));
            lemma_reserving_keeps_consistent(old(self)@, name@, client_id);
        }
        Ok(())
    }

    /// The name that `client_id` holds, if it holds one.
    pub fn name_of(&self, client_id: u32) -> (name: Option<String>)
        ensures
            name is Some <==> self@.client_name.contains_key(client_id),
            name matches Some(text) ==> text@ == self@.client_name[client_id],
    {
        match self.client_name.get(&client_id) {
            Some(text) => Some(text.clone()),
            None => None,
        }
    }

    /// How many games there are.
    pub fn game_count(&self) -> (count: usize)
        ensures
            count == self@.games.len(),
    {
        self.games.len()
    }

    /// Makes a new game for `client_id`, called `name`, or "New Game" where
    /// `name` is empty, and binds the client to it. Returns the game.
    pub fn create_game(&mut self, client_id: u32, name: String) -> (game: GameState)
        requires
            old(self).wf(),
            old(self)@.games.len() < u32::MAX,
        ensures
            final(self)@ == old(self)@.with_new_game(client_id, name@),
            game@ == old(self)@.new_game(client_id, name@),
            final(self).wf(),
    {
        let game_id: u32 = self.games.len() as u32;
        let game_name: String = if name.as_str().is_empty() {
            String::from_str("New Game")
        } else {
            name
        };
        let game = GameState::new(client_id, game_name, game_id);
        let copy = game.clone();
        self.games.push(game);
        self.client_game.insert(client_id, game_id);
        proof {
            assert(self@.games =~= old(self)@.games.push(copy@));
            lemma_new_game_keeps_consistent(old(self)@, client_id, name@);
        }
        copy
    }

    /// Seats `client_id` in the game `game_id` and binds the client to it.
    /// Returns the game as it is then. A game whose slots are both taken
    /// seats nobody, and the client is bound to it all the same.
    pub fn join_game(&mut self, client_id: u32, game_id: u32) -> (outcome: Result<
        GameState,
        JoinError,
    >)
        requires
            old(self).wf(),
        ensures
            outcome is Err <==> game_id >= old(self)@.games.len(),
            outcome matches Err(error) ==> error == JoinError::UnknownGame,
            outcome matches Ok(game) ==> game@ == old(self)@.games[game_id as int].joined(
                client_id,
            ),
            final(self)@ == old(self)@.with_join(client_id, game_id),
            final(self).wf(),
    {
        if game_id as usize >= self.games.len() {
            return Err(JoinError::UnknownGame);
        }
        let mut game = self.games[game_id as usize].clone();
        game.add_new_player(client_id);
        let copy = game.clone();
        self.games.set(game_id as usize, game);
        self.client_game.insert(client_id, game_id);
        proof {
            assert(self@.games =~= old(self)@.games.update(game_id as int, copy@));
            lemma_joining_keeps_consistent(old(self)@, client_id, game_id);
        }
        Ok(copy)
    }

    /// The game that `client_id` is bound to.
    pub fn lookup_game_for(&self, client_id: u32) -> (outcome: Result<GameState, NotBound>)
        requires
            self.wf(),
        ensures
            match outcome {
                Ok(game) => self@.game_of(client_id) == Some(game@),
                Err(_) => self@.game_of(client_id) is None,
            },
    {
        match self.client_game.get(&client_id) {
            Some(game_id) => Ok(self.games[*game_id as usize].clone()),
            None => Err(NotBound),
        }
    }

    /// Asks for a move from `pit_index` in the game that `client_id` is bound
    /// to. Returns what the rules said of the move, and the game as it is then.
    pub fn apply_move_for(&mut self, client_id: u32, pit_index: usize) -> (outcome: Result<
        (Result<(), MoveError>, GameState),
        NotBound,
    >)
        requires
            old(self).wf(),
        ensures
            match outcome {
                Ok((verdict, after)) => old(self)@.game_of(client_id) matches Some(game)
                    && verdict == game.move_check(pit_index as int) && after@ == game.after_move(
                    pit_index as int,
                ),
                Err(_) => old(self)@.game_of(client_id) is None,
            },
            final(self)@ == old(self)@.with_move(client_id, pit_index as int),
            final(self).wf(),
    {
        let game_id: usize = match self.client_game.get(&client_id) {
            Some(game_id) => *game_id as usize,
            None => {
                return Err(NotBound);
            },
        };
        let mut game = self.games[game_id].clone();
        let verdict = game.apply_move(pit_index);
        let after = game.clone();
        self.games.set(game_id, game);
        proof {
            assert(self@.games =~= old(self)@.games.update(game_id as int, after@));
            lemma_moving_keeps_consistent(old(self)@, client_id, pit_index as int);
        }
        Ok((verdict, after))
    }

    /// Forgets `client_id`: frees its name, and takes it out of the game it
    /// is bound to. A client that the registry does not know changes nothing.
    pub fn remove_client(&mut self, client_id: u32)
        requires
            old(self).wf(),
        ensures
            final(self)@ == old(self)@.without_client(client_id),
            final(self).wf(),
    {
        match self.client_name.remove(&client_id) {
            Some(nickname) => {
                self.names.remove(nickname.as_str());
            },
            None => {},
        }
        match self.client_game.remove(&client_id) {
            Some(game_id) => {
                assert(old(self)@.client_game.contains_key(client_id));
                assert(old(self)@.client_game[client_id] == game_id);
                let mut game = self.games[game_id as usize].clone();
                game.remove_player(client_id);
                let ghost after = game@;
                self.games.set(game_id as usize, game);
                assert(self@.games =~= old(self)@.games.update(game_id as int, after));
            },
            None => {
                assert(self@.games =~= old(self)@.games);
            },
        }
        proof {
            assert(self@.client_name =~= old(self)@.client_name.remove(client_id));
            lemma_leaving_keeps_consistent(old(self)@, client_id);
        }
    }

    /// The names in use, each once, in no particular order.
    pub fn list_names(&self) -> (names: Vec<String>)
        requires
            self.wf(),
        ensures
            names@.map_values(|name: String| name@).to_set() == self@.names,
            names@.map_values(|name: String| name@).no_duplicates(),
    {
        let mut names: Vec<String> = Vec::new();
        let ghost clients = spec_keys_iter(&self.client_name).remaining();
        for client in iter: self.client_name.keys()
            invariant
                iter.seq() == clients,
                clients.unref().to_set() == self.client_name@.dom(),
                names.len() == iter.index(),
                forall|i: int|
                    0 <= i < names.len() ==> self.client_name@.contains_key(
                        *#[trigger] clients[i],
                    ),
                forall|i: int|
                    0 <= i < names.len() ==> (#[trigger] names[i])@
                        == self.client_name@[*clients[i]]@,
        {
            proof {
                let at = iter.index();
                assert(clients.unref()[at] == *client);
                assert(clients.unref().contains(*client));
                assert(clients.unref().to_set().contains(*client));
                assert(self.client_name@.contains_key(*clients[at]));
            }
            match self.client_name.get(client) {
                Some(name) => {
                    names.push(name.clone());
                },
                None => {},
            }
        }
        proof {
            let texts = names@.map_values(|name: String| name@);
            assert forall|i: int| 0 <= i < clients.len() implies self@.client_name.contains_key(
                *#[trigger] clients[i],
            ) by {
                assert(clients.unref()[i] == *clients[i]);
                assert(clients.unref().contains(*clients[i]));
                assert(clients.unref().to_set().contains(*clients[i]));
            }
            assert forall|text: Seq<char>| texts.to_set().contains(text) <==> self@.names.contains(
                text,
            ) by {
                if texts.to_set().contains(text) {
                    let i = choose|i: int| 0 <= i < texts.len() && texts[i] == text;
                    assert(self@.client_name.contains_key(*clients[i]));
                    assert(self@.client_name[*clients[i]] == text);
                    assert(is_held(self@.client_name, text));
                }
                if self@.names.contains(text) {
                    assert(is_held(self@.client_name, text));
                    let holder = choose|holder: u32|
                        self@.client_name.contains_key(holder)
                            && #[trigger] self@.client_name[holder] == text;
                    assert(clients.unref().to_set().contains(holder));
                    assert(clients.unref().contains(holder));
                    let i = choose|i: int|
                        0 <= i < clients.unref().len() && clients.unref()[i] == holder;
                    assert(texts[i] == text);
                    assert(texts.contains(text));
                }
            }
            assert(texts.to_set() =~= self@.names);
            assert forall|i: int, j: int|
                0 <= i < texts.len() && 0 <= j < texts.len() && i != j implies texts[i]
                != texts[j] by {
                assert(self@.client_name.contains_key(*clients[i]));
                assert(self@.client_name.contains_key(*clients[j]));
                assert(self@.client_name[*clients[i]] == texts[i]);
                assert(self@.client_name[*clients[j]] == texts[j]);
                assert(clients[i] != clients[j]);
            }
        }
        names
    }

    /// The games, in the order of their ids.
    pub fn list_games(&self) -> (games: Vec<GameState>)
        ensures
            games@.map_values(|game: GameState| game@) == self@.games,
    {
        let mut games: Vec<GameState> = Vec::new();
        let mut i: usize = 0;
        while i < self.games.len()
            invariant
                i <= self.games.len(),
                games@ == self.games@.subrange(0, i as int),
            decreases self.games.len() - i,
        {
            games.push(self.games[i].clone());
            assert(games@ =~= self.games@.subrange(0, i + 1));
            i += 1;
        }
        assert(games@ =~= self.games@);
        games
    }
}

/// Reserving a name leaves a registry as every registry is.
pub proof fn lemma_reserving_keeps_consistent(registry: RegistryView, name: Seq<char>, client: u32)
    requires
        registry.consistent(),
    ensures
        registry.reserved(name, client).consistent(),
{
    let after = registry.reserved(name, client);
    if !registry.names.contains(name) {
        assert forall|other: Seq<char>| #[trigger]
            after.names.contains(other) <==> is_held(after.client_name, other) by {
            if after.names.contains(other) {
                if other == name {
                    assert(after.client_name.contains_key(client) && after.client_name[client]
                        == other);
                } else {
                    assert(registry.names.contains(other));
                    let holder = choose|holder: u32|
                        registry.client_name.contains_key(holder)
                            && #[trigger] registry.client_name[holder] == other;
                    assert(holder != client);
                    assert(after.client_name.contains_key(holder) && after.client_name[holder]
                        == other);
                }
            }
            if is_held(after.client_name, other) {
                let holder = choose|holder: u32|
                    after.client_name.contains_key(holder) && #[trigger] after.client_name[holder]
                        == other;
                if holder != client {
                    assert(registry.client_name.contains_key(holder)
                        && registry.client_name[holder] == other);
                    assert(is_held(registry.client_name, other));
                }
            }
        }
        assert forall|a: u32, b: u32|
            after.client_name.contains_key(a) && after.client_name.contains_key(b)
                && #[trigger] after.client_name[a] == #[trigger] after.client_name[b] implies a
                == b by {
            if a != b {
                if a == client {
                    assert(registry.client_name.contains_key(b) && registry.client_name[b]
                        == name);
                    assert(is_held(registry.client_name, name));
                } else if b == client {
                    assert(registry.client_name.contains_key(a) && registry.client_name[a]
                        == name);
                    assert(is_held(registry.client_name, name));
                }
            }
        }
    }
}

/// A new game leaves a registry as every registry is, as long as its id can
/// be counted.
pub proof fn lemma_new_game_keeps_consistent(registry: RegistryView, client: u32, name: Seq<char>)
    requires
        registry.consistent(),
        registry.games.len() < u32::MAX,
    ensures
        registry.with_new_game(client, name).consistent(),
{
    let after = registry.with_new_game(client, name);
}

/// Joining a game leaves a registry as every registry is.
pub proof fn lemma_joining_keeps_consistent(registry: RegistryView, client: u32, game_id: u32)
    requires
        registry.consistent(),
    ensures
        registry.with_join(client, game_id).consistent(),
{
    let after = registry.with_join(client, game_id);
}

/// A move, accepted or not, leaves a registry as every registry is.
pub proof fn lemma_moving_keeps_consistent(registry: RegistryView, client: u32, pit: int)
    requires
        registry.consistent(),
    ensures
        registry.with_move(client, pit).consistent(),
{
    let after = registry.with_move(client, pit);
    if registry.client_game.contains_key(client) {
        let game_id = registry.client_game[client] as int;
        lemma_stones_are_conserved(registry.games[game_id], GameEvent::Move(pit));
    }
}

/// A client that goes leaves a registry as every registry is.
pub proof fn lemma_leaving_keeps_consistent(registry: RegistryView, client: u32)
    requires
        registry.consistent(),
    ensures
        registry.without_client(client).consistent(),
{
    let after = registry.without_client(client);
    if registry.client_game.contains_key(client) {
        let game_id = registry.client_game[client] as int;
        lemma_stones_are_conserved(registry.games[game_id], GameEvent::Leave(client));
    }
    assert forall|other: Seq<char>| #[trigger]
        after.names.contains(other) <==> is_held(after.client_name, other) by {
        if after.names.contains(other) {
            assert(registry.names.contains(other));
            let holder = choose|holder: u32|
                registry.client_name.contains_key(holder) && #[trigger] registry.client_name[holder]
                    == other;
            assert(holder != client);
            assert(after.client_name.contains_key(holder) && after.client_name[holder] == other);
        }
        if is_held(after.client_name, other) {
            let holder = choose|holder: u32|
                after.client_name.contains_key(holder) && #[trigger] after.client_name[holder]
                    == other;
            assert(registry.client_name.contains_key(holder) && registry.client_name[holder]
                == other);
            assert(is_held(registry.client_name, other));
        }
    }
}

/// What can happen to a registry.
pub enum RegistryEvent {
    /// A client asks for a name.
    Reserve(u32, Seq<char>),
    /// A client asks for a new game of the given name.
    NewGame(u32, Seq<char>),
    /// A client asks to join the game of the given id.
    Join(u32, u32),
    /// A client asks for a move from the given pit.
    Move(u32, int),
    /// A client goes.
    Remove(u32),
}

impl RegistryView {
    /// The registry after `event`. A new game is made only while its id can
    /// be counted.
    pub open spec fn after(self, event: RegistryEvent) -> RegistryView {
        match event {
            RegistryEvent::Reserve(client, name) => self.reserved(name, client),
            RegistryEvent::NewGame(client, name) => if self.games.len() < u32::MAX {
                self.with_new_game(client, name)
            } else {
                self
            },
            RegistryEvent::Join(client, game_id) => self.with_join(client, game_id),
            RegistryEvent::Move(client, pit) => self.with_move(client, pit),
            RegistryEvent::Remove(client) => self.without_client(client),
        }
    }

    /// The registry after each of `events` in turn.
    pub open spec fn after_all(self, events: Seq<RegistryEvent>) -> RegistryView
        decreases events.len(),
    {
        if events.len() == 0 {
            self
        } else {
            self.after_all(events.drop_last()).after(events.last())
        }
    }
}

/// Name uniqueness. Whatever clients ask of a registry, and in whatever
/// order, it stays as every registry is; so no two clients hold the same
/// name afterwards, and the names in use are the names that clients hold.
pub proof fn lemma_names_stay_unique(events: Seq<RegistryEvent>, a: u32, b: u32)
    requires
        a != b,
    ensures
        RegistryView::empty().after_all(events).consistent(),
        ({
            let after = RegistryView::empty().after_all(events);
            after.client_name.contains_key(a) && after.client_name.contains_key(b)
                ==> after.client_name[a] != after.client_name[b]
        }),
    decreases events.len(),
{
    if events.len() > 0 {
        lemma_names_stay_unique(events.drop_last(), a, b);
        let before = RegistryView::empty().after_all(events.drop_last());
        match events.last() {
            RegistryEvent::Reserve(client, name) => {
                lemma_reserving_keeps_consistent(before, name, client);
            },
            RegistryEvent::NewGame(client, name) => {
                if before.games.len() < u32::MAX {
                    lemma_new_game_keeps_consistent(before, client, name);
                }
            },
            RegistryEvent::Join(client, game_id) => {
                lemma_joining_keeps_consistent(before, client, game_id);
            },
            RegistryEvent::Move(client, pit) => {
                lemma_moving_keeps_consistent(before, client, pit);
            },
            RegistryEvent::Remove(client) => {
                lemma_leaving_keeps_consistent(before, client);
            },
        }
    }
}

/// A name that is given up is free at once. When the client that holds a name
/// goes, or takes another name, any client that then asks for the name gets it.
pub proof fn lemma_released_name_is_free(
    registry: RegistryView,
    client: u32,
    new_name: Seq<char>,
    other: u32,
)
    requires
        registry.consistent(),
        registry.client_name.contains_key(client),
    ensures
        ({
            let name = registry.client_name[client];
            let gone = registry.without_client(client);
            let renamed = registry.reserved(new_name, client);
            &&& registry.names.contains(name)
            &&& !gone.names.contains(name)
            &&& gone.reserved(name, other).client_name.contains_key(other)
            &&& gone.reserved(name, other).client_name[other] == name
            &&& !registry.names.contains(new_name) ==> {
                &&& renamed.client_name[client] == new_name
                &&& !renamed.names.contains(name)
                &&& renamed.reserved(name, other).client_name[other] == name
            }
        }),
{
    let name = registry.client_name[client];
    assert(is_held(registry.client_name, name));
}

} // verus!
