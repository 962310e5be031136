//! What the players of a game are told when something happens in it.

use vstd::prelude::*;
use crate::entries::GameEntry;
use crate::entries::MoveInfo;
use crate::identity::AgentKey;
use crate::identity::RecordHash;

verus! {

/// A notice to the other players of a game. It is sent once and not again:
/// whether it arrives changes nothing of the game.
#[derive(Clone, Debug, PartialEq, Eq)]
pub enum SignalPayload {
    GameStarted { game_hash: RecordHash, game_entry: GameEntry },
    NewMove(MoveInfo),
    RemovedCurrentGame { game_hash: RecordHash },
}

/// The test that a player is not `me`.
pub open spec fn other_than(me: Seq<u8>) -> spec_fn(Seq<u8>) -> bool {
    |player: Seq<u8>| player != me
}

/// The players other than `me`, in the order of the list.
pub open spec fn others(players: Seq<Seq<u8>>, me: Seq<u8>) -> Seq<Seq<u8>> {
    players.filter(other_than(me))
}

/// The players of the game to whom `me` sends a notice: all but `me`.
pub fn signal_recipients(game: &GameEntry, me: &AgentKey) -> (opponents: Vec<AgentKey>)
    ensures
        opponents.deep_view() == others(game@.players, me@),
{
    let ghost players = game@.players;
    let mut opponents: Vec<AgentKey> = Vec::new();
    let mut i: usize = 0;
    assert(players.take(0).filter(other_than(me@)) =~= Seq::empty()) by {
        reveal(Seq::filter);
    }
    assert(opponents.deep_view() =~= Seq::empty());
    while i < game.players.len()
        invariant
            i <= game.players.len(),
            players == game@.players,
            opponents.deep_view() == players.take(i as int).filter(other_than(me@)),
        decreases game.players.len() - i,
    {
        let ghost before = opponents.deep_view();
        let ghost next = players.take(i + 1);
        proof {
            let player = game.players@[i as int]@;
            assert(next =~= players.take(i as int).push(player));
            players.take(i as int).lemma_filter_push(player, other_than(me@));
        }
        if !game.players[i].same_as(me) {
            opponents.push(game.players[i].duplicate());
            assert(opponents.deep_view() =~= before.push(game.players@[i as int]@));
        }
        i += 1;
    }
    assert(players.take(game.players.len() as int) =~= players);
    opponents
}

} // verus!
