//! The validation of a move, as every peer that sees the move runs it.
//!
//! The checks come in a fixed order, and the first that fails decides:
//! the move is signed by the author it names; the game is visible and the
//! author plays in it; the moves before it are visible; it is the author's
//! turn; the game has not ended; the game allows the move.

use vstd::prelude::*;
use crate::entries::GameEntry;
use crate::entries::GameEntryView;
use crate::entries::GameMoveEntry;
use crate::entries::GameMoveView;
use crate::entries::MoveInfo;
use crate::entries::MoveInfoView;
use crate::error::AuthorizationError;
use crate::error::GameError;
use crate::error::OutcomeView;
use crate::error::ProtocolError;
use crate::error::StructuralError;
use crate::error::ValidationOutcome;
use crate::history::history_of;
use crate::history::lookup;
use crate::history::materialize_history;
use crate::history::HistoryGap;
use crate::history::HistoryGapView;
use crate::identity::AgentKey;
use crate::replay::apply_entry;
use crate::replay::apply_move;
use crate::replay::build_game_state;
use crate::replay::replay;
use crate::turn::is_authors_turn;
use crate::turn::last_author;
use crate::turn::position_of;
use crate::turn::validate_it_is_authors_turn;
use crate::turn_based_game::GameStatus;
use crate::turn_based_game::TurnBasedGame;

verus! {

/// What the validation says of a move whose game and earlier moves are all
/// known: the move must come from the player whose turn it is, the game
/// must still be going on after the earlier moves, and the game must allow
/// the move in the state that they lead to.
pub open spec fn judge_move<G: TurnBasedGame>(
    candidate: GameMoveView,
    players: Seq<Seq<u8>>,
    history: Seq<GameMoveView>,
) -> OutcomeView<G::RuleError> {
    if !is_authors_turn(candidate.author, last_author(history), players) {
        OutcomeView::Invalid(GameError::Protocol(ProtocolError::NotAuthorsTurn))
    } else {
        match replay::<G>(players, history) {
            Err(e) => OutcomeView::Invalid(e),
            Ok(state) => if G::status_spec(state) is Finished {
                OutcomeView::Invalid(GameError::Protocol(ProtocolError::GameFinished))
            } else {
                match apply_entry::<G>(state, candidate, players) {
                    Ok(_) => OutcomeView::Valid,
                    Err(e) => OutcomeView::Invalid(e),
                }
            },
        }
    }
}

/// What the validation says of a move, given who signed it, the game if it is
/// visible, and the moves that are visible.
pub open spec fn move_outcome<G: TurnBasedGame>(
    candidate: GameMoveView,
    signer: Seq<u8>,
    game: Option<GameEntryView>,
    visible: Seq<MoveInfoView>,
) -> OutcomeView<G::RuleError> {
    if signer != candidate.author {
        OutcomeView::Invalid(GameError::Authorization(AuthorizationError::NotSignedByAuthor))
    } else {
        match game {
            None => OutcomeView::Pending(seq![candidate.game_hash]),
            Some(game) => if !game.players.contains(candidate.author) {
                OutcomeView::Invalid(GameError::Authorization(AuthorizationError::NotAPlayer))
            } else {
                match history_of(visible, candidate) {
                    Err(HistoryGapView::Missing(hash)) => OutcomeView::Pending(seq![hash]),
                    Err(HistoryGapView::Cycle) => OutcomeView::Invalid(
                        GameError::Structure(StructuralError::Cycle),
                    ),
                    Ok(history) => judge_move::<G>(candidate, game.players, history),
                }
            },
        }
    }
}

/// A move by someone who does not play in the game is turned down for want
/// of authority, whatever else holds of it.
pub proof fn lemma_outsider_is_unauthorized<G: TurnBasedGame>(
    candidate: GameMoveView,
    signer: Seq<u8>,
    game: GameEntryView,
    visible: Seq<MoveInfoView>,
)
    requires
        !game.players.contains(candidate.author),
    ensures
        move_outcome::<G>(candidate, signer, Some(game), visible) matches OutcomeView::Invalid(
            GameError::Authorization(_),
        ),
{
}

/// A move that a player makes when it is another player's turn is turned
/// down as a breach of protocol.
pub proof fn lemma_out_of_turn_is_rejected<G: TurnBasedGame>(
    candidate: GameMoveView,
    game: GameEntryView,
    visible: Seq<MoveInfoView>,
    history: Seq<GameMoveView>,
)
    requires
        game.players.contains(candidate.author),
        history_of(visible, candidate) == Ok::<Seq<GameMoveView>, HistoryGapView>(history),
        !is_authors_turn(candidate.author, last_author(history), game.players),
    ensures
        move_outcome::<G>(candidate, candidate.author, Some(game), visible)
            == OutcomeView::<G::RuleError>::Invalid(
            GameError::Protocol(ProtocolError::NotAuthorsTurn),
        ),
{
}

/// A move that a player makes after the game has ended is turned down as a
/// breach of protocol, whatever the board holds.
pub proof fn lemma_move_after_end_is_rejected<G: TurnBasedGame>(
    candidate: GameMoveView,
    game: GameEntryView,
    visible: Seq<MoveInfoView>,
    history: Seq<GameMoveView>,
    state: G::V,
)
    requires
        game.players.contains(candidate.author),
        history_of(visible, candidate) == Ok::<Seq<GameMoveView>, HistoryGapView>(history),
        replay::<G>(game.players, history) == Ok::<G::V, GameError<G::RuleError>>(state),
        G::status_spec(state) is Finished,
    ensures
        move_outcome::<G>(candidate, candidate.author, Some(game), visible) matches OutcomeView::Invalid(
            GameError::Protocol(_),
        ),
{
}

/// A move of a player that names a previous move under which nothing is
/// visible is neither accepted nor turned down: the validation waits for
/// exactly that reference.
pub proof fn lemma_unseen_previous_move_is_pending<G: TurnBasedGame>(
    candidate: GameMoveView,
    game: GameEntryView,
    visible: Seq<MoveInfoView>,
    previous: Seq<u8>,
)
    requires
        game.players.contains(candidate.author),
        candidate.previous_move_hash == Some(previous),
        lookup(visible, previous) is None,
    ensures
        move_outcome::<G>(candidate, candidate.author, Some(game), visible)
            == OutcomeView::<G::RuleError>::Pending(seq![previous]),
{
}

/// Validates a move.
///
/// `signer` is the key that signed the record, `game` the game that the
/// move names, if it is visible, and `visible_moves` the moves that are
/// visible, in any order.
pub fn validate_game_move_entry<G: TurnBasedGame>(
    move_entry: &GameMoveEntry,
    signer: &AgentKey,
    game: Option<&GameEntry>,
    visible_moves: &Vec<MoveInfo>,
) -> (outcome: ValidationOutcome<G::RuleError>)
    ensures
        outcome@ == move_outcome::<G>(
            move_entry@,
            signer@,
            match game {
                Some(game) => Some(game@),
                None => None,
            },
            visible_moves.deep_view(),
        ),
{
    if !signer.same_as(&move_entry.author_pub_key) {
        return ValidationOutcome::Invalid(
            GameError::Authorization(AuthorizationError::NotSignedByAuthor),
        );
    }
    let game = match game {
        Some(game) => game,
        None => {
            return ValidationOutcome::pending_on(&move_entry.game_hash);
        },
    };
    match position_of(&game.players, &move_entry.author_pub_key) {
        Some(i) => {
            assert(game@.players[i as int] == move_entry@.author);
        },
        None => {
            return ValidationOutcome::Invalid(
                GameError::Authorization(AuthorizationError::NotAPlayer),
            );
        },
    }
    let ordered_moves = match materialize_history(&move_entry.previous_move_hash, visible_moves) {
        Ok(moves) => moves,
        Err(HistoryGap::Missing(hash)) => {
            return ValidationOutcome::pending_on(&hash);
        },
        Err(HistoryGap::Cycle) => {
            return ValidationOutcome::Invalid(GameError::Structure(StructuralError::Cycle));
        },
    };
    let maybe_last_move = if ordered_moves.len() > 0 {
        Some(&ordered_moves[ordered_moves.len() - 1])
    } else {
        None
    };
    match validate_it_is_authors_turn(&move_entry.author_pub_key, maybe_last_move, &game.players) {
        Ok(()) => {},
        Err(e) => {
            return ValidationOutcome::Invalid(GameError::Protocol(e));
        },
    }
    let game_state = match build_game_state::<G>(game, &ordered_moves) {
        Ok(state) => state,
        Err(e) => {
            return ValidationOutcome::Invalid(e);
        },
    };
    match game_state.status() {
        GameStatus::Finished { .. } => {
            return ValidationOutcome::Invalid(GameError::Protocol(ProtocolError::GameFinished));
        },
        GameStatus::Ongoing => {},
    }
    match apply_move(game_state, game, move_entry) {
        Ok(_) => ValidationOutcome::Valid,
        Err(e) => ValidationOutcome::Invalid(e),
    }
}

} // verus!
