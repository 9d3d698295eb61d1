use vstd::prelude::*;

use crate::model::{spec_apply_move, spec_apply_moves, Grid, Move, PlayerMove};

verus! {

/// An operation was asked of the lifecycle state it is not valid in.
#[derive(PartialEq, Eq, Structural, Clone, Copy, Debug)]
pub enum StateError {
    /// No identity has been assigned yet.
    NotRegistered,
    /// No game is being played, so no board is owned.
    NotPlaying,
}

/// A running game: the identity the server assigned to this agent and
/// the board it owns.
#[derive(Debug)]
pub struct Game {
    pub player_id: i64,
    pub map: Grid,
}

/// The agent's lifecycle, in the strict form the orchestration layer
/// uses: an identity is assigned exactly once, and a board can only be
/// owned together with that identity. A game-start that arrives before
/// registration succeeded is dropped rather than held back.
#[derive(Debug)]
pub enum GameState {
    Registring,
    Registred(i64),
    Playing(Game),
}

impl Default for GameState {
    /// The state at process start: not yet registered.
    fn default() -> (r: Self)
        ensures
            r is Registring,
    {
        GameState::Registring
    }
}

/// The moves a tick payload carries: none at all when the list is
/// absent, else the listed moves in their order of arrival.
pub open spec fn spec_tick_moves(moves: Option<Vec<PlayerMove>>) -> Seq<PlayerMove> {
    match moves {
        Some(v) => v@,
        None => Seq::empty(),
    }
}

impl GameState {
    /// The identity assigned by the server, while registered but not
    /// yet playing: exactly the view a game-start decision needs.
    pub fn registred_player(&self) -> (r: Option<i64>)
        ensures
            r == (match *self {
                GameState::Registred(id) => Some(id),
                _ => None::<i64>,
            }),
    {
        match self {
            GameState::Registred(player_id) => Some(*player_id),
            _ => None,
        }
    }

    /// Mutable access to the running game, or nothing while no game is
    /// being played.
    pub fn game_mut(&mut self) -> (r: Option<&mut Game>)
        ensures
            match r {
                Some(game) => {
                    &&& *old(self) matches GameState::Playing(g0) && *game == g0
                    &&& *final(self) == GameState::Playing(*final(game))
                },
                None => {
                    &&& !(*old(self) is Playing)
                    &&& *final(self) == *old(self)
                },
            },
    {
        match self {
            GameState::Playing(game) => Some(game),
            _ => None,
        }
    }

    /// Record the identity a successful registration returned. Only
    /// the first registration counts: recorded again, or after play
    /// has begun, the call changes nothing.
    pub fn record_registration(&mut self, id: i64)
        ensures
            *old(self) is Registring ==> *final(self) == GameState::Registred(id),
            !(*old(self) is Registring) ==> *final(self) == *old(self),
    {
        match self {
            GameState::Registring => {
                *self = GameState::Registred(id);
            },
            _ => {},
        }
    }

    /// Begin play on the given board. Valid only once registered and
    /// not yet playing: before registration, and once a game runs, the
    /// board is dropped and the state is left as it was.
    pub fn start_game(&mut self, map: Grid)
        ensures
            (*old(self) matches GameState::Registred(id)
                ==> *final(self) == GameState::Playing((Game { player_id: id, map: map }))),
            !(*old(self) is Registred) ==> *final(self) == *old(self),
    {
        match self {
            GameState::Registred(player_id) => {
                let id: i64 = *player_id;
                *self = GameState::Playing(Game { player_id: id, map });
            },
            _ => {},
        }
    }

    /// The agent's own identity, in any state that has one.
    pub fn own_id(&self) -> (r: Result<i64, StateError>)
        ensures
            r == (match *self {
                GameState::Registring => Err::<i64, StateError>(StateError::NotRegistered),
                GameState::Registred(id) => Ok::<i64, StateError>(id),
                GameState::Playing(g) => Ok::<i64, StateError>(g.player_id),
            }),
    {
        match self {
            GameState::Registring => Err(StateError::NotRegistered),
            GameState::Registred(id) => Ok(*id),
            GameState::Playing(game) => Ok(game.player_id),
        }
    }

    /// Mutable access to the board, valid only while playing.
    pub fn grid_mut(&mut self) -> (r: Result<&mut Grid, StateError>)
        ensures
            match r {
                Ok(grid) => {
                    &&& *old(self) matches GameState::Playing(g0) && *grid == g0.map
                    &&& *final(self) == GameState::Playing((Game {
                        player_id: (*old(self))->Playing_0.player_id,
                        map: *final(grid),
                    }))
                },
                Err(e) => {
                    &&& !(*old(self) is Playing)
                    &&& e == StateError::NotPlaying
                    &&& *final(self) == *old(self)
                },
            },
    {
        match self {
            GameState::Playing(game) => Ok(&mut game.map),
            _ => Err(StateError::NotPlaying),
        }
    }
}

impl Grid {
    /// Apply a whole tick's moves, in the order the server listed
    /// them; a later move may overwrite a cell an earlier one filled.
    pub fn apply_moves(&mut self, moves: &Vec<PlayerMove>)
        ensures
            final(self)@ == spec_apply_moves(old(self)@, moves@),
    {
        proof {
            assert(moves@.skip(0) =~= moves@);
        }
        let mut k: usize = 0;
        while k < moves.len()
            invariant
                k <= moves.len(),
                spec_apply_moves(old(self)@, moves@) == spec_apply_moves(self@, moves@.skip(k as int)),
            decreases moves.len() - k,
        {
            let ghost before: Seq<Seq<crate::model::Entity>> = self@;
            self.apply_move(&moves[k]);
            proof {
                assert(moves@.skip(k as int).drop_first() =~= moves@.skip(k as int + 1));
                assert(moves@.skip(k as int)[0] == moves@[k as int]);
                assert(spec_apply_moves(before, moves@.skip(k as int))
                    == spec_apply_moves(spec_apply_move(before, moves@[k as int]), moves@.skip(k as int + 1)));
            }
            k += 1;
        }
        proof {
            assert(moves@.skip(moves@.len() as int) =~= Seq::<PlayerMove>::empty());
        }
    }
}

impl GameState {
    /// Ingest one tick: while playing, apply every reported move to
    /// the board in arrival order; in any other state, or when the
    /// payload carries no move list, the state is untouched.
    pub fn apply_tick(&mut self, moves: &Option<Vec<PlayerMove>>)
        ensures
            !(*old(self) is Playing) ==> *final(self) == *old(self),
            *old(self) is Playing ==> {
                &&& *final(self) is Playing
                &&& (*final(self))->Playing_0.player_id == (*old(self))->Playing_0.player_id
                &&& (*final(self))->Playing_0.map@ == spec_apply_moves((*old(self))->Playing_0.map@, spec_tick_moves(*moves))
            },
    {
        match moves {
            Some(move_list) => {
                match self {
                    GameState::Playing(game) => {
                        game.map.apply_moves(move_list);
                    },
                    _ => {},
                }
            },
            None => {},
        }
    }
}

/// The move-selection capability: given the current board and the
/// agent's own identity, pick a direction to play. Strategies are
/// supplied by the embedding application and are not specified here.
pub trait MoveStrategy {
    fn decide(&mut self, grid: &Grid, own_id: i64) -> Move;
}

/// The decision step of a tick: while playing, consult the strategy
/// exactly once with the current board and the agent's own identity;
/// in any other state there is nothing to decide.
pub fn choose_direction<S: MoveStrategy>(state: &GameState, strategy: &mut S) -> (r: Option<Move>)
    ensures
        r is Some <==> *state is Playing,
{
    match state {
        GameState::Playing(game) => Some(strategy.decide(&game.map, game.player_id)),
        _ => None,
    }
}

} // verus!
