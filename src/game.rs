use vstd::prelude::*;

use crate::board::{
    check_game_over, copy_player, empty_board, empty_seq, placed, project_board, same_player,
    slot_at, valid_move, winner_of, winning_token, Board, Player, Slot, Token,
};
use crate::events::{
    CreateGame, GameCommands, GameCreated, GameEvents, GameId, PlaceToken, Timestamp, TokenPlaced,
};
use std::collections::HashMap;

use crate::position::{column_positions, Position, HORIZONTAL_SLOT_COUNT, VERTICAL_SLOT_COUNT};

verus! {

/// Whether a game is still being played.
#[derive(Clone, Copy, Debug, PartialEq, Eq, Structural)]
pub enum GameStatus {
    Ongoing,
    Terminated,
}

/// One game: its id, its two players and its board.
#[derive(Clone, Debug)]
pub struct Game {
    pub id: GameId,
    pub player1: Player,
    pub player2: Player,
    pub board: Board,
}

/// Someone has four in a row on the game's board.
pub open spec fn game_is_over(g: Game) -> bool {
    winning_token(g.board@) is Some
}

impl Game {
    /// The winner of the game, if there is one yet.
    pub fn game_over(&self) -> (r: Option<&Player>)
        ensures
            r == winner_of(self.board@, &self.player1, &self.player2),
    {
        check_game_over(&self.board, &self.player1, &self.player2)
    }

    pub fn status(&self) -> (r: GameStatus)
        ensures
            r == (if game_is_over(*self) { GameStatus::Terminated } else { GameStatus::Ongoing }),
    {
        match self.game_over() {
            None => GameStatus::Ongoing,
            Some(_) => GameStatus::Terminated,
        }
    }
}

/// The games, each under its own id.
pub type Games = HashMap<GameId, Game>;

/// `c` names a player that is seated in game `g`.
pub open spec fn names_collide(g: Game, c: CreateGame) -> bool {
    ||| g.player1.name@ == c.player1.name@
    ||| g.player1.name@ == c.player2.name@
    ||| g.player2.name@ == c.player1.name@
    ||| g.player2.name@ == c.player2.name@
}

/// No game in `m` that is still going on seats a player that `c` names.
pub open spec fn may_create(m: Map<GameId, Game>, c: CreateGame) -> bool {
    forall|k: GameId| #[trigger] m.contains_key(k) ==> !(!game_is_over(m[k]) && names_collide(m[k], c))
}

/// A proposed name that is seated in a game that is not over blocks the new
/// game; once every game that seats one of the proposed names is over, the
/// new game may be created.
pub proof fn lemma_duplicate_player_rejection(m: Map<GameId, Game>, c: CreateGame)
    ensures
        (exists|k: GameId| #[trigger] m.contains_key(k) && !game_is_over(m[k]) && names_collide(m[k], c))
            ==> !may_create(m, c),
        (forall|k: GameId| #[trigger] m.contains_key(k) && names_collide(m[k], c) ==> game_is_over(m[k]))
            ==> may_create(m, c),
{
}

/// The game that `p` names exists, is not over, and has room in the column
/// that `p` names.
pub open spec fn may_place(m: Map<GameId, Game>, p: PlaceToken) -> bool {
    &&& m.contains_key(p.game)
    &&& !game_is_over(m[p.game])
    &&& valid_move(m[p.game].board@, p.column as int)
}

/// The column that `action` names has an empty slot.
pub fn is_valid_move(board: &Board, action: &PlaceToken) -> (r: bool)
    ensures
        r == valid_move(board@, action.column as int),
{
    if action.column >= HORIZONTAL_SLOT_COUNT {
        return false;
    }
    let positions = column_positions(action.column);
    let mut y: usize = 0;
    while y < VERTICAL_SLOT_COUNT
        invariant
            y <= VERTICAL_SLOT_COUNT,
            action.column < HORIZONTAL_SLOT_COUNT,
            forall|j: int|
                0 <= j < VERTICAL_SLOT_COUNT ==> #[trigger] positions@[j] == (Position {
                    x: action.column,
                    y: j as usize,
                }),
            forall|j: int| 0 <= j < y ==> #[trigger] board@[crate::position::index_of(action.column as int, j)] is Occupied,
        decreases VERTICAL_SLOT_COUNT - y,
    {
        let idx = positions[y].translate();
        if board[idx] == Slot::Empty {
            assert(!(slot_at(board@, action.column as int, y as int) is Occupied));
            return true;
        }
        y += 1;
    }
    false
}

/// When the first `n` of `seq` are all the games of `m`, and none of them
/// blocks `c`, nothing in `m` blocks `c`.
proof fn lemma_all_games_seen(m: Map<GameId, Game>, seq: Seq<Game>, n: int, c: CreateGame)
    requires
        seq.to_set() == m.values(),
        forall|j: int| 0 <= j < n ==> !(!game_is_over(#[trigger] seq[j]) && names_collide(seq[j], c)),
    ensures
        n == seq.len() ==> may_create(m, c),
{
    if n == seq.len() {
        assert forall|k: GameId| #[trigger] m.contains_key(k) implies !(!game_is_over(m[k])
            && names_collide(m[k], c)) by {
            assert(m.values().contains(m[k]));
            assert(seq.contains(m[k]));
        }
    }
}

/// Whether the two players that `command` names may start a game: neither
/// may be seated in a game that is not over.
pub fn can_create_game(games: &Games, command: &CreateGame) -> (r: bool)
    ensures
        r == may_create(games@, *command),
{
    broadcast use vstd::std_specs::hash::group_hash_axioms;

    let ghost m = games@;
    for game in it: games.values()
        invariant
            m == games@,
            it.seq().unref().to_set() == m.values(),
            forall|j: int|
                0 <= j < it.index() ==> !(!game_is_over(#[trigger] it.seq().unref()[j]) && names_collide(
                    it.seq().unref()[j],
                    *command,
                )),
            it.index() == it.seq().len() ==> may_create(m, *command),
    {
        proof {
            assert(it.seq().unref()[it.index()] == *game);
        }
        if game.game_over().is_none() && (game.player1.name == command.player1.name
            || game.player1.name == command.player2.name
            || game.player2.name == command.player1.name
            || game.player2.name == command.player2.name)
        {
            proof {
                assert(m.values().contains(*game));
                let k = choose|k: GameId| m.contains_key(k) && m[k] == *game;
                assert(m.contains_key(k));
            }
            return false;
        }
        proof {
            lemma_all_games_seen(m, it.seq().unref(), it.index() + 1, *command);
        }
    }
    true
}

/// `e` is the GameCreated event for command `c`, with id `id` and time `t`.
pub open spec fn is_created_event(e: GameEvents, id: int, c: CreateGame, t: Timestamp) -> bool {
    match e {
        GameEvents::GameCreated(g) => {
            &&& g.id == id
            &&& same_player(g.player1, c.player1)
            &&& same_player(g.player2, c.player2)
            &&& g.created == t
        },
        GameEvents::TokenPlaced(_) => false,
    }
}

/// `e` is the TokenPlaced event for command `p` at time `t`.
pub open spec fn is_placed_event(e: GameEvents, p: PlaceToken, t: Timestamp) -> bool {
    match e {
        GameEvents::TokenPlaced(tp) => {
            &&& tp.game == p.game
            &&& tp.token == p.player.token
            &&& tp.column == p.column
            &&& tp.created == t
        },
        GameEvents::GameCreated(_) => false,
    }
}

/// `r` is what the games `m` answer to `cmd` at time `t`: the event that
/// the command asks for when it is legal, nothing otherwise.
pub open spec fn decided(m: Map<GameId, Game>, cmd: GameCommands, r: Option<GameEvents>, t: Timestamp) -> bool {
    match cmd {
        GameCommands::CreateGame(c) => if may_create(m, c) {
            r matches Some(e) && is_created_event(e, m.len() as int, c, t)
        } else {
            r is None
        },
        GameCommands::PlaceToken(p) => if may_place(m, p) {
            r matches Some(e) && is_placed_event(e, p, t)
        } else {
            r is None
        },
    }
}

/// Decides whether `cmd` is accepted, and stamps the resulting event with
/// `created`. A new game takes the number of existing games as its id.
pub fn command_processing_at(games: &Games, cmd: GameCommands, created: Timestamp) -> (r: Option<GameEvents>)
    ensures
        decided(games@, cmd, r, created),
{
    broadcast use vstd::std_specs::hash::group_hash_axioms;

    match cmd {
        GameCommands::CreateGame(params) => {
            if can_create_game(games, &params) {
                let id = games.len();
                return Some(GameEvents::GameCreated(GameCreated {
                    id,
                    player1: copy_player(&params.player1),
                    player2: copy_player(&params.player2),
                    created,
                }));
            }
        },
        GameCommands::PlaceToken(params) => {
            if let Some(game) = games.get(&params.game) {
                if game.game_over().is_none() && is_valid_move(&game.board, &params) {
                    return Some(GameEvents::TokenPlaced(TokenPlaced {
                        game: params.game,
                        token: params.player.token,
                        column: params.column,
                        created,
                    }));
                }
            }
        },
    }
    None
}

/// Decides whether `cmd` is accepted, stamping the event with the current time.
pub fn command_processing(games: &Games, cmd: GameCommands) -> (r: Option<GameEvents>)
    ensures
        exists|t: Timestamp| decided(games@, cmd, r, t),
{
    let now = Timestamp::now();
    command_processing_at(games, cmd, now)
}

/// `g` is the fresh game that `e` creates.
pub open spec fn is_new_game(g: Game, e: GameCreated) -> bool {
    &&& g.id == e.id
    &&& same_player(g.player1, e.player1)
    &&& same_player(g.player2, e.player2)
    &&& g.board@ == empty_seq()
}

/// `g` is `before` with `e`'s token dropped into its board.
pub open spec fn is_played(g: Game, before: Game, e: TokenPlaced) -> bool {
    &&& g.id == before.id
    &&& g.player1 == before.player1
    &&& g.player2 == before.player2
    &&& g.board@ == placed(before.board@, e.column as int, e.token)
}

/// `new` is `old` after `event`: a created game is added, or replaces the
/// game with its id; a placed token goes to the board of its game, and an
/// unknown game leaves everything as it was.
pub open spec fn applied(old: Map<GameId, Game>, new: Map<GameId, Game>, event: GameEvents) -> bool {
    match event {
        GameEvents::GameCreated(e) => {
            &&& new == old.insert(e.id, new[e.id])
            &&& is_new_game(new[e.id], e)
        },
        GameEvents::TokenPlaced(e) => if old.contains_key(e.game) {
            &&& new == old.insert(e.game, new[e.game])
            &&& is_played(new[e.game], old[e.game], e)
        } else {
            new == old
        },
    }
}

/// Folds one event into the games.
pub fn project_all_games(games: &mut Games, event: &GameEvents)
    ensures
        applied(old(games)@, final(games)@, *event),
{
    broadcast use vstd::std_specs::hash::group_hash_axioms;

    match event {
        GameEvents::GameCreated(event) => {
            let game = Game {
                id: event.id,
                player1: copy_player(&event.player1),
                player2: copy_player(&event.player2),
                board: empty_board(),
            };
            games.insert(event.id, game);
            assert(games@ =~= old(games)@.insert(event.id, games@[event.id]));
        },
        GameEvents::TokenPlaced(event) => {
            if let Some(mut game) = games.remove(&event.game) {
                project_board(&mut game.board, event);
                games.insert(event.game, game);
                assert(games@ =~= old(games)@.insert(event.game, games@[event.game]));
            } else {
                assert(games@ =~= old(games)@);
            }
        },
    }
}

/// Applies an accepted event to the games.
pub fn event_processing(games: &mut Games, event: &GameEvents)
    ensures
        applied(old(games)@, final(games)@, *event),
{
    project_all_games(games, event);
}

/// The token that plays after `current`.
pub fn project_next_color_to_play(current: Token, _event: &TokenPlaced) -> (r: Token)
    ensures
        r == (match current {
            Token::Red => Token::Yellow,
            Token::Yellow => Token::Red,
        }),
{
    match current {
        Token::Red => Token::Yellow,
        Token::Yellow => Token::Red,
    }
}

/// The number of games after one more is created.
pub fn project_game_count(current: usize, _event: &GameCreated) -> (r: usize)
    requires
        current < usize::MAX,
    ensures
        r == current + 1,
{
    current + 1
}

} // verus!
