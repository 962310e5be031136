//! The state of a game, rebuilt by making its moves again from the start.

use vstd::prelude::*;
use crate::entries::GameEntry;
use crate::entries::GameMoveEntry;
use crate::entries::GameMoveView;
use crate::error::GameError;
use crate::error::ProtocolError;
use crate::error::StructuralError;
use crate::turn_based_game::player_count_allowed;
use crate::turn_based_game::allows_player_count;
use crate::turn_based_game::TurnBasedGame;

verus! {

/// The state after one recorded move: the move is decoded by the game and
/// then made by its author. Bytes that are no move of the game are a breach
/// of protocol; what the game objects to is handed on as it is.
pub open spec fn apply_entry<G: TurnBasedGame>(
    state: G::V,
    game_move: GameMoveView,
    players: Seq<Seq<u8>>,
) -> Result<G::V, GameError<G::RuleError>> {
    match G::decode_spec(game_move.game_move) {
        None => Err(GameError::Protocol(ProtocolError::UndecodableMove)),
        Some(decoded) => match G::apply_move_spec(state, decoded, game_move.author, players) {
            Ok(next) => Ok(next),
            Err(e) => Err(GameError::Rule(e)),
        },
    }
}

/// The state after the moves, made in the order given on the initial state
/// for these players, or what the first move that cannot be made fails with.
/// A number of players that the game does not allow has no initial state.
pub open spec fn replay<G: TurnBasedGame>(players: Seq<Seq<u8>>, moves: Seq<GameMoveView>) -> Result<
    G::V,
    GameError<G::RuleError>,
>
    decreases moves.len(),
{
    if moves.len() == 0 {
        if allows_player_count::<G>(players.len()) {
            Ok(G::initial_spec(players))
        } else {
            Err(GameError::Structure(StructuralError::BadNumberOfPlayers))
        }
    } else {
        match replay::<G>(players, moves.drop_last()) {
            Ok(state) => apply_entry::<G>(state, moves.last(), players),
            Err(e) => Err(e),
        }
    }
}

/// Once a move has failed, the moves after it change nothing.
pub proof fn lemma_replay_stops_at_first_error<G: TurnBasedGame>(
    players: Seq<Seq<u8>>,
    moves: Seq<GameMoveView>,
    made: int,
)
    requires
        0 <= made <= moves.len(),
        replay::<G>(players, moves.take(made)) is Err,
    ensures
        replay::<G>(players, moves) == replay::<G>(players, moves.take(made)),
    decreases moves.len(),
{
    if made == moves.len() {
        assert(moves.take(made) =~= moves);
    } else {
        assert(moves.drop_last().take(made) =~= moves.take(made));
        lemma_replay_stops_at_first_error::<G>(players, moves.drop_last(), made);
    }
}

/// Replaying the same moves for the same players gives the same state,
/// whoever replays them and whenever.
pub proof fn lemma_replay_is_deterministic<G: TurnBasedGame>(
    players1: Seq<Seq<u8>>,
    moves1: Seq<GameMoveView>,
    players2: Seq<Seq<u8>>,
    moves2: Seq<GameMoveView>,
)
    requires
        players1 =~= players2,
        moves1 =~= moves2,
    ensures
        replay::<G>(players1, moves1) == replay::<G>(players2, moves2),
{
}

/// Makes one recorded move on a state of the game.
pub fn apply_move<G: TurnBasedGame>(
    game_state: G,
    game_entry: &GameEntry,
    game_move: &GameMoveEntry,
) -> (next: Result<G, GameError<G::RuleError>>)
    ensures
        match next {
            Ok(state) => apply_entry::<G>(game_state@, game_move@, game_entry@.players) == Ok::<
                G::V,
                GameError<G::RuleError>,
            >(state@),
            Err(e) => apply_entry::<G>(game_state@, game_move@, game_entry@.players) == Err::<
                G::V,
                GameError<G::RuleError>,
            >(e),
        },
{
    let move_content = match G::decode_move(&game_move.game_move) {
        Some(decoded) => decoded,
        None => {
            return Err(GameError::Protocol(ProtocolError::UndecodableMove));
        },
    };
    match game_state.apply_move(move_content, &game_move.author_pub_key, &game_entry.players) {
        Ok(next) => Ok(next),
        Err(e) => Err(GameError::Rule(e)),
    }
}

/// Rebuilds the state of a game from its moves, given in the order in which
/// they were made.
pub fn build_game_state<G: TurnBasedGame>(game_entry: &GameEntry, moves: &Vec<GameMoveEntry>) -> (state:
    Result<G, GameError<G::RuleError>>)
    ensures
        match state {
            Ok(state) => replay::<G>(game_entry@.players, moves.deep_view()) == Ok::<
                G::V,
                GameError<G::RuleError>,
            >(state@),
            Err(e) => replay::<G>(game_entry@.players, moves.deep_view()) == Err::<
                G::V,
                GameError<G::RuleError>,
            >(e),
        },
{
    let ghost players = game_entry@.players;
    let ghost views = moves.deep_view();
    if !player_count_allowed::<G>(game_entry.players.len()) {
        proof {
            assert(views.take(0).len() == 0);
            lemma_replay_stops_at_first_error::<G>(players, views, 0);
        }
        return Err(GameError::Structure(StructuralError::BadNumberOfPlayers));
    }
    let mut game_state = G::initial(&game_entry.players);
    let mut i: usize = 0;
    while i < moves.len()
        invariant
            i <= moves.len(),
            players == game_entry@.players,
            views == moves.deep_view(),
            replay::<G>(players, views.take(i as int)) == Ok::<G::V, GameError<G::RuleError>>(
                game_state@,
            ),
        decreases moves.len() - i,
    {
        proof {
            assert(views.take(i + 1).drop_last() =~= views.take(i as int));
            assert(views.take(i + 1).last() == moves@[i as int]@);
        }
        match apply_move(game_state, game_entry, &moves[i]) {
            Ok(next) => {
                game_state = next;
            },
            Err(e) => {
                proof {
                    lemma_replay_stops_at_first_error::<G>(players, views, i + 1);
                }
                return Err(e);
            },
        }
        i += 1;
    }
    assert(views.take(moves.len() as int) =~= views);
    Ok(game_state)
}

} // verus!
