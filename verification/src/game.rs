//! What is asked of a game record when it is created, and of every later
//! attempt to change it.

use vstd::prelude::*;
use crate::entries::GameEntry;
use crate::entries::GameEntryView;
use crate::error::AuthorizationError;
use crate::error::GameError;
use crate::error::OutcomeView;
use crate::error::ProtocolError;
use crate::error::StructuralError;
use crate::error::ValidationOutcome;
use crate::identity::AgentKey;
use crate::identity::RecordHash;
use crate::turn::position_of;
use crate::turn_based_game::allows_player_count;
use crate::turn_based_game::player_count_allowed;
use crate::turn_based_game::TurnBasedGame;

verus! {

/// A player is listed twice.
pub open spec fn has_repeated_player(players: Seq<Seq<u8>>) -> bool {
    exists|i: int, j: int| 0 <= i < j < players.len() && #[trigger] players[i] == #[trigger] players[j]
}

/// What the validation says of a new game: no player may be listed twice,
/// and the game must allow the number of players. Nothing else is asked.
pub open spec fn game_entry_outcome<G: TurnBasedGame>(game: GameEntryView) -> OutcomeView<
    G::RuleError,
> {
    if has_repeated_player(game.players) {
        OutcomeView::Invalid(GameError::Structure(StructuralError::RepeatedPlayer))
    } else if !allows_player_count::<G>(game.players.len()) {
        OutcomeView::Invalid(GameError::Structure(StructuralError::BadNumberOfPlayers))
    } else {
        OutcomeView::Valid
    }
}

fn find_repeated_player(players: &Vec<AgentKey>) -> (found: bool)
    ensures
        found == has_repeated_player(players.deep_view()),
{
    let ghost views = players.deep_view();
    let n = players.len();
    let mut i: usize = 0;
    while i < n
        invariant
            n == players.len(),
            views == players.deep_view(),
            i <= n,
            forall|a: int, b: int|
                0 <= a < b < n && a < i ==> #[trigger] views[a] != #[trigger] views[b],
        decreases n - i,
    {
        let mut j: usize = i + 1;
        while j < n
            invariant
                n == players.len(),
                views == players.deep_view(),
                i < j <= n,
                forall|a: int, b: int|
                    0 <= a < b < n && a < i ==> #[trigger] views[a] != #[trigger] views[b],
                forall|b: int| i < b < j ==> views[i as int] != #[trigger] views[b],
            decreases n - j,
        {
            if players[i].same_as(&players[j]) {
                assert(views[i as int] == views[j as int]);
                return true;
            }
            j += 1;
        }
        i += 1;
    }
    false
}

/// Validates a game that is being created.
pub fn validate_game_entry<G: TurnBasedGame>(game: &GameEntry) -> (outcome: ValidationOutcome<
    G::RuleError,
>)
    ensures
        outcome@ == game_entry_outcome::<G>(game@),
{
    if find_repeated_player(&game.players) {
        return ValidationOutcome::Invalid(GameError::Structure(StructuralError::RepeatedPlayer));
    }
    if !player_count_allowed::<G>(game.players.len()) {
        return ValidationOutcome::Invalid(
            GameError::Structure(StructuralError::BadNumberOfPlayers),
        );
    }
    ValidationOutcome::Valid
}

/// Validates what was committed as a new game. Where the content did not
/// come with it, the validation waits for the content if its hash is known,
/// and turns the record down if not even that is.
pub fn validate_created_game<G: TurnBasedGame>(
    maybe_game: Option<&GameEntry>,
    entry_hash: Option<&RecordHash>,
) -> (outcome: ValidationOutcome<G::RuleError>)
    ensures
        outcome@ == (match maybe_game {
            Some(game) => game_entry_outcome::<G>(game@),
            None => match entry_hash {
                Some(hash) => OutcomeView::Pending(seq![hash@]),
                None => OutcomeView::Invalid(GameError::Structure(StructuralError::NoEntry)),
            },
        }),
{
    match maybe_game {
        Some(game) => validate_game_entry::<G>(game),
        None => match entry_hash {
            Some(hash) => ValidationOutcome::pending_on(hash),
            None => ValidationOutcome::Invalid(GameError::Structure(StructuralError::NoEntry)),
        },
    }
}

/// What is done to a record or a pointer.
#[derive(Clone, Copy, Debug, PartialEq, Eq)]
pub enum Operation {
    Create,
    Update,
    Delete,
}

/// Validates an operation on a game record: a game can be created, and is
/// never changed or removed after that.
pub fn validate_game_operation<G: TurnBasedGame>(operation: Operation, game: &GameEntry) -> (outcome:
    ValidationOutcome<G::RuleError>)
    ensures
        outcome@ == (match operation {
            Operation::Create => game_entry_outcome::<G>(game@),
            _ => OutcomeView::Invalid(GameError::Protocol(ProtocolError::ImmutableRecord)),
        }),
{
    match operation {
        Operation::Create => validate_game_entry::<G>(game),
        _ => ValidationOutcome::Invalid(GameError::Protocol(ProtocolError::ImmutableRecord)),
    }
}

/// What the validation says of every attempt to change or remove a record
/// of which nothing more is known than that it is a game or a move: it is
/// turned down.
pub fn validate_change<E>() -> (outcome: ValidationOutcome<E>)
    ensures
        outcome@ == OutcomeView::<E>::Invalid(GameError::Protocol(ProtocolError::ImmutableRecord)),
{
    ValidationOutcome::Invalid(GameError::Protocol(ProtocolError::ImmutableRecord))
}

/// Validates that a pointer from a player to a game is set or taken away:
/// only a player of the game may do either, for themselves or in another
/// player's place.
pub fn validate_player_link<E>(author: &AgentKey, game: &GameEntry) -> (outcome: ValidationOutcome<
    E,
>)
    ensures
        outcome@ == (if game@.players.contains(author@) {
            OutcomeView::<E>::Valid
        } else {
            OutcomeView::<E>::Invalid(GameError::Authorization(AuthorizationError::NotAPlayer))
        }),
{
    match position_of(&game.players, author) {
        Some(i) => {
            assert(game@.players[i as int] == author@);
            ValidationOutcome::Valid
        },
        None => ValidationOutcome::Invalid(
            GameError::Authorization(AuthorizationError::NotAPlayer),
        ),
    }
}

} // verus!
