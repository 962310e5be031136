//! What a peer computes when it starts a game, makes a move or looks at a
//! game, between reading from the store and writing to it.

use vstd::prelude::*;
use crate::chain::order_moves;
use crate::chain::resolve;
use crate::clock::millis_at;
use crate::clock::rest_nanos;
use crate::clock::seconds_and_nanos;
use crate::clock::utc_millis;
use crate::clock::whole_seconds;
use crate::clock::LAST_MICROSECOND;
use crate::entries::entries_of;
use crate::entries::GameEntry;
use crate::entries::GameEntryView;
use crate::entries::GameMoveEntry;
use crate::entries::GameMoveView;
use crate::entries::MoveInfo;
use crate::entries::MoveInfoView;
use crate::error::GameError;
use crate::error::ProtocolError;
use crate::error::StructuralError;
use crate::identity::AgentKey;
use crate::identity::RecordHash;
use crate::replay::build_game_state;
use crate::replay::replay;
use crate::turn_based_game::GameStatus;
use crate::turn_based_game::GameStatusView;
use crate::turn_based_game::TurnBasedGame;

verus! {

/// The record of a game that these players start at the given time of the
/// host, which counts in microseconds from 1970-01-01T00:00:00Z. The record
/// holds the time in milliseconds. There is no record for a time before 1970
/// that is not a whole second, nor for one that the calendar does not reach.
pub fn create_game(players: Vec<AgentKey>, now_micros: i64) -> (game: Option<GameEntry>)
    ensures
        game matches Some(entry) ==> entry@.players == players.deep_view() && entry.created_at
            == millis_at(whole_seconds(now_micros) as i64, rest_nanos(now_micros) as u32),
        0 <= now_micros <= LAST_MICROSECOND ==> (game matches Some(entry) && entry.created_at
            == now_micros / 1000),
        now_micros < 0 && now_micros % 1_000_000 != 0 ==> game is None,
{
    let (secs, nanos) = seconds_and_nanos(now_micros);
    match utc_millis(secs, nanos) {
        Some(created_at) => Some(GameEntry { players, created_at }),
        None => None,
    }
}

/// The moves without their hashes.
pub fn only_moves(moves: &Vec<MoveInfo>) -> (entries: Vec<GameMoveEntry>)
    ensures
        entries.deep_view() == entries_of(moves.deep_view()),
{
    let mut entries: Vec<GameMoveEntry> = Vec::new();
    let mut i: usize = 0;
    while i < moves.len()
        invariant
            i <= moves.len(),
            entries.len() == i,
            forall|k: int| 0 <= k < i ==> entries@[k]@ == moves@[k]@.game_move_entry,
        decreases moves.len() - i,
    {
        entries.push(moves[i].game_move_entry.duplicate());
        i += 1;
    }
    assert(entries.deep_view() =~= entries_of(moves.deep_view()));
    entries
}

/// One of the records that were asked for did not come.
pub open spec fn has_absent<T>(fetched: Seq<Option<T>>) -> bool {
    exists|i: int| 0 <= i < fetched.len() && (#[trigger] fetched[i]) is None
}

/// The moves of a list in which none is absent.
pub open spec fn present_moves(fetched: Seq<Option<MoveInfo>>) -> Seq<MoveInfoView> {
    Seq::new(fetched.len(), |i: int| fetched[i].unwrap()@)
}

/// What the moves that a game points to, as the store gave them, amount to:
/// where one of them did not come, nothing; else their chain.
pub open spec fn fetched_chain(fetched: Seq<Option<MoveInfo>>) -> Result<
    Seq<MoveInfoView>,
    StructuralError,
> {
    if has_absent(fetched) {
        Err(StructuralError::NoEntry)
    } else {
        resolve(present_moves(fetched))
    }
}

/// Puts the moves that a game points to in the order in which they were
/// made. `fetched` holds, for each pointer of the game, the move that the
/// store gave for it, if it gave one.
pub fn get_moves_entries(fetched: &Vec<Option<MoveInfo>>) -> (moves: Result<
    Vec<MoveInfo>,
    StructuralError,
>)
    ensures
        match moves {
            Ok(chain) => fetched_chain(fetched@) == Ok::<Seq<MoveInfoView>, StructuralError>(
                chain.deep_view(),
            ),
            Err(e) => fetched_chain(fetched@) == Err::<Seq<MoveInfoView>, StructuralError>(e),
        },
{
    let mut present: Vec<MoveInfo> = Vec::new();
    let mut i: usize = 0;
    while i < fetched.len()
        invariant
            i <= fetched.len(),
            present.len() == i,
            forall|k: int| 0 <= k < i ==> (#[trigger] fetched@[k]) is Some,
            forall|k: int| 0 <= k < i ==> present@[k]@ == fetched@[k].unwrap()@,
        decreases fetched.len() - i,
    {
        match &fetched[i] {
            Some(game_move) => {
                present.push(game_move.duplicate());
            },
            None => {
                assert(fetched@[i as int] is None);
                return Err(StructuralError::NoEntry);
            },
        }
        i += 1;
    }
    assert(present.deep_view() =~= present_moves(fetched@));
    order_moves(&present)
}

/// The latest of the moves is the one that the new move is to follow: there
/// is no move and none is named, or the latest move is held under the hash
/// that is named.
pub open spec fn sees_previous_move(
    fetched_moves: Seq<MoveInfoView>,
    previous_move_hash: Option<Seq<u8>>,
) -> bool {
    match previous_move_hash {
        None => fetched_moves.len() == 0,
        Some(hash) => fetched_moves.len() > 0 && fetched_moves.last().header_hash == hash,
    }
}

/// Checks that the move which a new move is to follow is the latest of the
/// moves that the peer sees, given in the order in which they were made. If
/// it is not, the peer has not caught up yet and is to try again.
pub fn verify_we_see_previous_move_hash(
    fetched_moves: &Vec<MoveInfo>,
    previous_move_hash: &Option<RecordHash>,
) -> (seen: Result<(), ProtocolError>)
    ensures
        seen == (if sees_previous_move(fetched_moves.deep_view(), previous_move_hash.deep_view()) {
            Ok::<(), ProtocolError>(())
        } else {
            Err::<(), ProtocolError>(ProtocolError::PreviousMoveNotSeen)
        }),
{
    let n = fetched_moves.len();
    let seen = match previous_move_hash {
        None => n == 0,
        Some(required) => n > 0 && fetched_moves[n - 1].header_hash.same_as(required),
    };
    if seen {
        Ok(())
    } else {
        Err(ProtocolError::PreviousMoveNotSeen)
    }
}

/// The state of a game, given its moves as the store gave them, in any
/// order.
pub open spec fn game_state_of<G: TurnBasedGame>(game: GameEntryView, moves: Seq<MoveInfoView>) -> Result<
    G::V,
    GameError<G::RuleError>,
> {
    match resolve(moves) {
        Err(e) => Err(GameError::Structure(e)),
        Ok(chain) => replay::<G>(game.players, entries_of(chain)),
    }
}

/// Rebuilds the state of a game from its moves, which may come in any
/// order.
pub fn get_game_state<G: TurnBasedGame>(game: &GameEntry, moves: &Vec<MoveInfo>) -> (state: Result<
    G,
    GameError<G::RuleError>,
>)
    ensures
        match state {
            Ok(state) => game_state_of::<G>(game@, moves.deep_view()) == Ok::<
                G::V,
                GameError<G::RuleError>,
            >(state@),
            Err(e) => game_state_of::<G>(game@, moves.deep_view()) == Err::<
                G::V,
                GameError<G::RuleError>,
            >(e),
        },
{
    let chain = match order_moves(moves) {
        Ok(chain) => chain,
        Err(e) => {
            return Err(GameError::Structure(e));
        },
    };
    let only_moves = only_moves(&chain);
    build_game_state::<G>(game, &only_moves)
}

/// Whether a game has ended, and in whose favour, given its moves in any
/// order.
pub fn get_game_outcome<G: TurnBasedGame>(game: &GameEntry, moves: &Vec<MoveInfo>) -> (outcome:
    Result<GameStatus, GameError<G::RuleError>>)
    ensures
        match outcome {
            Ok(status) => game_state_of::<G>(game@, moves.deep_view()) matches Ok(state)
                && status@ == G::status_spec(state),
            Err(e) => game_state_of::<G>(game@, moves.deep_view()) == Err::<
                G::V,
                GameError<G::RuleError>,
            >(e),
        },
{
    match get_game_state::<G>(game, moves) {
        Ok(state) => Ok(state.status()),
        Err(e) => Err(e),
    }
}

/// Those in whose favour the game has ended, if it has.
pub open spec fn winners_of(status: GameStatusView) -> Option<Seq<Seq<u8>>> {
    match status {
        GameStatusView::Finished { winners } => Some(winners),
        GameStatusView::Ongoing => None,
    }
}

/// The winners of a game after the given moves, which stand in the order in
/// which they were made; none while the game is going on.
pub fn compute_winner<G: TurnBasedGame>(game: &GameEntry, moves: &Vec<GameMoveEntry>) -> (winners:
    Result<Option<Vec<AgentKey>>, GameError<G::RuleError>>)
    ensures
        match winners {
            Ok(winners) => replay::<G>(game@.players, moves.deep_view()) matches Ok(state)
                && winners.deep_view() == winners_of(G::status_spec(state)),
            Err(e) => replay::<G>(game@.players, moves.deep_view()) == Err::<
                G::V,
                GameError<G::RuleError>,
            >(e),
        },
{
    match build_game_state::<G>(game, moves) {
        Ok(state) => match state.status() {
            GameStatus::Finished { winners } => Ok(Some(winners)),
            GameStatus::Ongoing => Ok(None),
        },
        Err(e) => Err(e),
    }
}

/// The winners of a game, given its moves in any order; none while the game
/// is going on.
pub fn get_game_winner<G: TurnBasedGame>(game: &GameEntry, moves: &Vec<MoveInfo>) -> (winners:
    Result<Option<Vec<AgentKey>>, GameError<G::RuleError>>)
    ensures
        match winners {
            Ok(winners) => game_state_of::<G>(game@, moves.deep_view()) matches Ok(state)
                && winners.deep_view() == winners_of(G::status_spec(state)),
            Err(e) => game_state_of::<G>(game@, moves.deep_view()) == Err::<
                G::V,
                GameError<G::RuleError>,
            >(e),
        },
{
    let chain = match order_moves(moves) {
        Ok(chain) => chain,
        Err(e) => {
            return Err(GameError::Structure(e));
        },
    };
    let only_moves = only_moves(&chain);
    compute_winner::<G>(game, &only_moves)
}

/// What a player hands in to make a move: the game, the move that the new
/// one follows, and the move itself.
pub struct MakeMoveInput<G: TurnBasedGame> {
    pub game_hash: RecordHash,
    pub previous_move_hash: Option<RecordHash>,
    pub game_move: G::GameMove,
}

/// The record of the move that a player is about to make, or why the player
/// cannot make it: the moves known so far are no chain, the move to follow
/// is not the latest of them, they cannot be replayed, or the game does not
/// allow the move in the state that they lead to. `fetched_moves` are the moves
/// of the game as the store gave them, in any order.
pub open spec fn new_move<G: TurnBasedGame>(
    game: GameEntryView,
    fetched_moves: Seq<MoveInfoView>,
    game_hash: Seq<u8>,
    previous_move_hash: Option<Seq<u8>>,
    game_move: G::GameMove,
    author: Seq<u8>,
) -> Result<GameMoveView, GameError<G::RuleError>> {
    match resolve(fetched_moves) {
        Err(e) => Err(GameError::Structure(e)),
        Ok(chain) => if !sees_previous_move(chain, previous_move_hash) {
            Err(GameError::Protocol(ProtocolError::PreviousMoveNotSeen))
        } else {
            match replay::<G>(game.players, entries_of(chain)) {
                Err(e) => Err(e),
                Ok(state) => match G::apply_move_spec(state, game_move, author, game.players) {
                    Err(e) => Err(GameError::Rule(e)),
                    Ok(_) => Ok(
                        GameMoveView {
                            game_hash,
                            author,
                            game_move: G::encode_spec(game_move),
                            previous_move_hash,
                        },
                    ),
                },
            }
        },
    }
}

/// Makes the record of the next move of a game, after checking on the
/// player's own view of the game that the move can be made. The record is
/// then for the caller to commit; every peer validates it again.
pub fn create_move<G: TurnBasedGame>(
    game: &GameEntry,
    fetched_moves: &Vec<MoveInfo>,
    input: MakeMoveInput<G>,
    author: AgentKey,
) -> (created: Result<GameMoveEntry, GameError<G::RuleError>>)
    ensures
        match created {
            Ok(entry) => new_move::<G>(
                game@,
                fetched_moves.deep_view(),
                input.game_hash@,
                input.previous_move_hash.deep_view(),
                input.game_move,
                author@,
            ) == Ok::<GameMoveView, GameError<G::RuleError>>(entry@),
            Err(e) => new_move::<G>(
                game@,
                fetched_moves.deep_view(),
                input.game_hash@,
                input.previous_move_hash.deep_view(),
                input.game_move,
                author@,
            ) == Err::<GameMoveView, GameError<G::RuleError>>(e),
        },
{
    let moves = match order_moves(fetched_moves) {
        Ok(chain) => chain,
        Err(e) => {
            return Err(GameError::Structure(e));
        },
    };
    match verify_we_see_previous_move_hash(&moves, &input.previous_move_hash) {
        Ok(()) => {},
        Err(e) => {
            return Err(GameError::Protocol(e));
        },
    }
    let only_moves = only_moves(&moves);
    let game_state = match build_game_state::<G>(game, &only_moves) {
        Ok(state) => state,
        Err(e) => {
            return Err(e);
        },
    };
    let move_bytes = G::encode_move(&input.game_move);
    match game_state.apply_move(input.game_move, &author, &game.players) {
        Ok(_) => {},
        Err(e) => {
            return Err(GameError::Rule(e));
        },
    }
    Ok(
        GameMoveEntry {
            game_hash: input.game_hash,
            author_pub_key: author,
            game_move: move_bytes,
            previous_move_hash: input.previous_move_hash,
        },
    )
}

/// The moves that the recorded moves stand for, in the same order, if each
/// of them stands for one.
pub open spec fn decoded_moves<G: TurnBasedGame>(moves: Seq<GameMoveView>) -> Option<
    Seq<G::GameMove>,
>
    decreases moves.len(),
{
    if moves.len() == 0 {
        Some(Seq::empty())
    } else {
        match decoded_moves::<G>(moves.drop_last()) {
            None => None,
            Some(earlier) => match G::decode_spec(moves.last().game_move) {
                None => None,
                Some(decoded) => Some(earlier.push(decoded)),
            },
        }
    }
}

/// Once a move cannot be decoded, the list as a whole cannot.
pub proof fn lemma_undecodable_prefix<G: TurnBasedGame>(moves: Seq<GameMoveView>, made: int)
    requires
        0 <= made <= moves.len(),
        decoded_moves::<G>(moves.take(made)) is None,
    ensures
        decoded_moves::<G>(moves) is None,
    decreases moves.len(),
{
    if made == moves.len() {
        assert(moves.take(made) =~= moves);
    } else {
        assert(moves.drop_last().take(made) =~= moves.take(made));
        lemma_undecodable_prefix::<G>(moves.drop_last(), made);
    }
}

/// Decodes recorded moves, in the order given.
pub fn decode_moves<G: TurnBasedGame>(moves: &Vec<GameMoveEntry>) -> (decoded: Result<
    Vec<G::GameMove>,
    ProtocolError,
>)
    ensures
        match decoded {
            Ok(game_moves) => decoded_moves::<G>(moves.deep_view()) == Some(game_moves@),
            Err(e) => e == ProtocolError::UndecodableMove && decoded_moves::<G>(moves.deep_view())
                is None,
        },
{
    let ghost views = moves.deep_view();
    let mut game_moves: Vec<G::GameMove> = Vec::new();
    let mut i: usize = 0;
    while i < moves.len()
        invariant
            i <= moves.len(),
            views == moves.deep_view(),
            decoded_moves::<G>(views.take(i as int)) == Some(game_moves@),
        decreases moves.len() - i,
    {
        proof {
            assert(views.take(i + 1).drop_last() =~= views.take(i as int));
            assert(views.take(i + 1).last() == moves@[i as int]@);
        }
        match G::decode_move(&moves[i].game_move) {
            Some(game_move) => {
                game_moves.push(game_move);
            },
            None => {
                proof {
                    lemma_undecodable_prefix::<G>(views, i + 1);
                }
                return Err(ProtocolError::UndecodableMove);
            },
        }
        i += 1;
    }
    assert(views.take(moves.len() as int) =~= views);
    Ok(game_moves)
}

/// The moves of a game as the game understands them, in the order in which
/// they were made, given the recorded moves as the store gave them.
pub open spec fn game_moves_of<G: TurnBasedGame>(fetched_moves: Seq<MoveInfoView>) -> Result<
    Seq<G::GameMove>,
    GameError<G::RuleError>,
> {
    match resolve(fetched_moves) {
        Err(e) => Err(GameError::Structure(e)),
        Ok(chain) => match decoded_moves::<G>(entries_of(chain)) {
            Some(game_moves) => Ok(game_moves),
            None => Err(GameError::Protocol(ProtocolError::UndecodableMove)),
        },
    }
}

/// Orders the recorded moves of a game, which may come in any order, and
/// decodes them.
pub fn get_game_moves<G: TurnBasedGame>(fetched_moves: &Vec<MoveInfo>) -> (game_moves: Result<
    Vec<G::GameMove>,
    GameError<G::RuleError>,
>)
    ensures
        match game_moves {
            Ok(game_moves) => game_moves_of::<G>(fetched_moves.deep_view()) == Ok::<
                Seq<G::GameMove>,
                GameError<G::RuleError>,
            >(game_moves@),
            Err(e) => game_moves_of::<G>(fetched_moves.deep_view()) == Err::<
                Seq<G::GameMove>,
                GameError<G::RuleError>,
            >(e),
        },
{
    let chain = match order_moves(fetched_moves) {
        Ok(chain) => chain,
        Err(e) => {
            return Err(GameError::Structure(e));
        },
    };
    let only_moves = only_moves(&chain);
    match decode_moves::<G>(&only_moves) {
        Ok(game_moves) => Ok(game_moves),
        Err(e) => Err(GameError::Protocol(e)),
    }
}

/// All that a peer knows of a game: its record, its state, and its moves in
/// the order in which they were made, each with what it stands for.
pub struct GameInfo<G: TurnBasedGame> {
    pub game_entry: GameEntry,
    pub game_state: G,
    pub moves: Vec<MoveInfo>,
    pub game_moves: Vec<G::GameMove>,
}

/// Gathers all that a peer knows of a game, given the recorded moves as the
/// store gave them, in any order.
pub fn get_game_info<G: TurnBasedGame>(game: &GameEntry, fetched_moves: &Vec<MoveInfo>) -> (info:
    Result<GameInfo<G>, GameError<G::RuleError>>)
    ensures
        match info {
            Ok(info) => {
                &&& info.game_entry@ == game@
                &&& resolve(fetched_moves.deep_view()) == Ok::<Seq<MoveInfoView>, StructuralError>(
                    info.moves.deep_view(),
                )
                &&& replay::<G>(game@.players, entries_of(info.moves.deep_view())) == Ok::<
                    G::V,
                    GameError<G::RuleError>,
                >(info.game_state@)
                &&& decoded_moves::<G>(entries_of(info.moves.deep_view())) == Some(
                    info.game_moves@,
                )
            },
            Err(e) => game_state_of::<G>(game@, fetched_moves.deep_view()) == Err::<
                G::V,
                GameError<G::RuleError>,
            >(e),
        },
{
    let moves = match order_moves(fetched_moves) {
        Ok(chain) => chain,
        Err(e) => {
            return Err(GameError::Structure(e));
        },
    };
    let only_moves = only_moves(&moves);
    let game_state = match build_game_state::<G>(game, &only_moves) {
        Ok(state) => state,
        Err(e) => {
            return Err(e);
        },
    };
    let game_moves = match decode_moves::<G>(&only_moves) {
        Ok(game_moves) => game_moves,
        Err(e) => {
            proof {
                lemma_replayed_moves_decode::<G>(game@.players, only_moves.deep_view());
            }
            return Err(GameError::Protocol(e));
        },
    };
    Ok(GameInfo { game_entry: game.duplicate(), game_state, moves, game_moves })
}

/// Moves that can be replayed can all be decoded.
pub proof fn lemma_replayed_moves_decode<G: TurnBasedGame>(
    players: Seq<Seq<u8>>,
    moves: Seq<GameMoveView>,
)
    requires
        replay::<G>(players, moves) is Ok,
    ensures
        decoded_moves::<G>(moves) is Some,
    decreases moves.len(),
{
    if moves.len() > 0 {
        lemma_replayed_moves_decode::<G>(players, moves.drop_last());
    }
}

} // verus!
