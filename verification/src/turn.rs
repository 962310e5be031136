//! Whose turn it is.
//!
//! The players take turns in the order in which the game lists them, the
//! first of them first, and after the last the first again.

use vstd::prelude::*;
use vstd::arithmetic::div_mod::lemma_mod_self_0;
use vstd::arithmetic::div_mod::lemma_small_mod;
use crate::entries::GameMoveEntry;
use crate::entries::GameMoveView;
use crate::error::ProtocolError;
use crate::identity::first_position;
use crate::identity::is_first_position;
use crate::identity::lemma_first_position_is_unique;
use crate::identity::AgentKey;

verus! {

/// The first position at which the list holds the key.
pub fn position_of(keys: &Vec<AgentKey>, key: &AgentKey) -> (position: Option<usize>)
    ensures
        match position {
            Some(i) => first_position(keys.deep_view(), key@) == Some(i as int)
                && is_first_position(keys.deep_view(), key@, i as int),
            None => first_position(keys.deep_view(), key@) is None && !keys.deep_view().contains(
                key@,
            ),
        },
{
    let ghost views = keys.deep_view();
    let mut i: usize = 0;
    while i < keys.len()
        invariant
            i <= keys.len(),
            views == keys.deep_view(),
            forall|j: int| 0 <= j < i ==> views[j] != key@,
        decreases keys.len() - i,
    {
        if keys[i].same_as(key) {
            proof {
                assert(is_first_position(views, key@, i as int));
                lemma_first_position_is_unique(views, key@, i as int);
            }
            return Some(i);
        }
        i += 1;
    }
    None
}

/// The author of the latest move, if any move has been made.
pub open spec fn last_author(history: Seq<GameMoveView>) -> Option<Seq<u8>> {
    if history.len() == 0 {
        None
    } else {
        Some(history.last().author)
    }
}

/// The position, in the list of players, of the player whose turn it is:
/// the first player where no move has been made, else the player after the
/// author of the latest move, and the first player again after the last. An
/// author who is not a player is followed by the first player.
pub open spec fn expected_index(players: Seq<Seq<u8>>, last_author: Option<Seq<u8>>) -> int {
    match last_author {
        None => 0,
        Some(author) => match first_position(players, author) {
            Some(last) => (last + 1) % (players.len() as int),
            None => 0,
        },
    }
}

/// It is the turn of `author`.
pub open spec fn is_authors_turn(
    author: Seq<u8>,
    last_author: Option<Seq<u8>>,
    players: Seq<Seq<u8>>,
) -> bool {
    players.len() > 0 && players[expected_index(players, last_author)] == author
}

/// The move at position `k` of the history was made by the player whose turn
/// it was after the moves before it.
pub open spec fn made_in_turn(players: Seq<Seq<u8>>, history: Seq<GameMoveView>, k: int) -> bool {
    is_authors_turn(history[k].author, last_author(history.take(k)), players)
}

/// Every move of the history was made by the player whose turn it was.
pub open spec fn obeys_turn_order(players: Seq<Seq<u8>>, history: Seq<GameMoveView>) -> bool {
    forall|k: int| 0 <= k < history.len() ==> #[trigger] made_in_turn(players, history, k)
}

/// With two players the turns alternate: the first player moves first, the
/// second next, then the first again, and so on.
pub proof fn lemma_two_players_alternate(players: Seq<Seq<u8>>, history: Seq<GameMoveView>)
    requires
        players.len() == 2,
        players[0] != players[1],
        obeys_turn_order(players, history),
    ensures
        expected_index(players, last_author(history)) == history.len() % 2,
    decreases history.len(),
{
    if history.len() > 0 {
        let k = history.len() - 1;
        let before = history.take(k);
        assert forall|j: int| 0 <= j < before.len() implies #[trigger] made_in_turn(
            players,
            before,
            j,
        ) by {
            assert(made_in_turn(players, history, j));
            assert(before.take(j) =~= history.take(j));
            assert(before[j] == history[j]);
        }
        lemma_two_players_alternate(players, before);
        assert(made_in_turn(players, history, k));
        let turn = k % 2;
        assert(expected_index(players, last_author(before)) == turn);
        assert(history.last().author == players[turn]);
        assert(is_first_position(players, players[turn], turn));
        lemma_first_position_is_unique(players, players[turn], turn);
        assert(last_author(history) == Some(players[turn]));
        assert(expected_index(players, last_author(history)) == (turn + 1) % 2);
        assert((turn + 1) % 2 == (k + 1) % 2);
    }
}

/// The position of the player whose turn it is, in a game that has players.
pub fn expected_author(maybe_last_move: Option<&GameMoveEntry>, players: &Vec<AgentKey>) -> (index:
    usize)
    requires
        players.len() > 0,
    ensures
        index < players.len(),
        index == expected_index(
            players.deep_view(),
            match maybe_last_move {
                Some(last_move) => Some(last_move@.author),
                None => None,
            },
        ),
{
    let maybe_last_player_index = match maybe_last_move {
        Some(last_move) => position_of(players, &last_move.author_pub_key),
        None => None,
    };
    match maybe_last_player_index {
        Some(last_player_index) => {
            assert(is_first_position(
                players.deep_view(),
                maybe_last_move.unwrap()@.author,
                last_player_index as int,
            ));
            let new_index = last_player_index + 1;
            if new_index >= players.len() {
                proof {
                    lemma_mod_self_0(players.len() as int);
                }
                0
            } else {
                proof {
                    lemma_small_mod(new_index as nat, players.len() as nat);
                }
                new_index
            }
        },
        None => 0,
    }
}

/// Checks that the author of a move is the player whose turn it is, given
/// the latest move made before it.
pub fn validate_it_is_authors_turn(
    author_pub_key: &AgentKey,
    maybe_last_move: Option<&GameMoveEntry>,
    players: &Vec<AgentKey>,
) -> (checked: Result<(), ProtocolError>)
    ensures
        checked == (if is_authors_turn(
            author_pub_key@,
            match maybe_last_move {
                Some(last_move) => Some(last_move@.author),
                None => None,
            },
            players.deep_view(),
        ) {
            Ok::<(), ProtocolError>(())
        } else {
            Err::<(), ProtocolError>(ProtocolError::NotAuthorsTurn)
        }),
{
    if players.len() == 0 {
        return Err(ProtocolError::NotAuthorsTurn);
    }
    let player_index = expected_author(maybe_last_move, players);
    if players[player_index].same_as(author_pub_key) {
        Ok(())
    } else {
        Err(ProtocolError::NotAuthorsTurn)
    }
}

} // verus!
