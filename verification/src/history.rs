//! The moves made before a given move, gathered by going back from it.
//!
//! A peer sees only the records that have reached it. Going back from a move,
//! from each move to the one it names as its previous, either comes to a first
//! move, and the history is complete, or comes to a reference under which
//! nothing is visible yet, and that reference is what the peer waits for.

use vstd::prelude::*;
use crate::chain::arranges;
use crate::chain::is_chain_of;
use crate::chain::lemma_chain_has_no_defect;
use crate::entries::entries_of;
use crate::entries::GameMoveEntry;
use crate::entries::GameMoveView;
use crate::entries::MoveInfo;
use crate::entries::MoveInfoView;
use crate::identity::duplicate_optional_hash;
use crate::identity::first_position;
use crate::identity::is_first_position;
use crate::identity::lemma_first_position_is_unique;
use crate::identity::RecordHash;

verus! {

/// Why the moves before a move cannot be told.
#[derive(Clone, Debug, PartialEq, Eq)]
pub enum HistoryGap {
    /// Nothing is visible under this reference.
    Missing(RecordHash),
    /// The references lead round in a circle.
    Cycle,
}

/// A [`HistoryGap`] as mathematical values.
pub enum HistoryGapView {
    Missing(Seq<u8>),
    Cycle,
}

impl DeepView for HistoryGap {
    type V = HistoryGapView;

    open spec fn deep_view(&self) -> HistoryGapView {
        match self {
            HistoryGap::Missing(hash) => HistoryGapView::Missing(hash@),
            HistoryGap::Cycle => HistoryGapView::Cycle,
        }
    }
}

impl View for HistoryGap {
    type V = HistoryGapView;

    open spec fn view(&self) -> HistoryGapView {
        self.deep_view()
    }
}

/// The hashes under which the moves are held.
pub open spec fn hashes_of(moves: Seq<MoveInfoView>) -> Seq<Seq<u8>> {
    moves.map_values(|m: MoveInfoView| m.header_hash)
}

/// The move that is visible under the hash, if one is: the first one, should
/// several be held under it.
pub open spec fn lookup(visible: Seq<MoveInfoView>, hash: Seq<u8>) -> Option<GameMoveView> {
    match first_position(hashes_of(visible), hash) {
        Some(i) => Some(visible[i].game_move_entry),
        None => None,
    }
}

/// The moves that lead up to the reference `cursor`, oldest first, as far as
/// `visible` shows them: none for no reference; else the move under the
/// reference, after the moves that lead up to the one it names. A reference
/// under which nothing is visible is a gap. `fuel` bounds the moves that may
/// be found: with as much fuel as there are visible moves, only references
/// that lead round in a circle use it up.
pub open spec fn history_before(
    visible: Seq<MoveInfoView>,
    cursor: Option<Seq<u8>>,
    fuel: nat,
) -> Result<Seq<GameMoveView>, HistoryGapView>
    decreases fuel,
{
    match cursor {
        None => Ok(Seq::empty()),
        Some(hash) => match lookup(visible, hash) {
            None => Err(HistoryGapView::Missing(hash)),
            Some(found) => if fuel == 0 {
                Err(HistoryGapView::Cycle)
            } else {
                match history_before(visible, found.previous_move_hash, (fuel - 1) as nat) {
                    Ok(older) => Ok(older.push(found)),
                    Err(gap) => Err(gap),
                }
            },
        },
    }
}

/// The moves before a move, as far as `visible` shows them.
pub open spec fn history_of(visible: Seq<MoveInfoView>, game_move: GameMoveView) -> Result<
    Seq<GameMoveView>,
    HistoryGapView,
> {
    history_before(visible, game_move.previous_move_hash, visible.len())
}

/// `older` and then `newer`, where `older` could be told.
pub open spec fn followed_by(
    older: Result<Seq<GameMoveView>, HistoryGapView>,
    newer: Seq<GameMoveView>,
) -> Result<Seq<GameMoveView>, HistoryGapView> {
    match older {
        Ok(moves) => Ok(moves + newer),
        Err(gap) => Err(gap),
    }
}

/// The position of the move that is visible under the hash.
pub fn find_move(visible: &Vec<MoveInfo>, hash: &RecordHash) -> (position: Option<usize>)
    ensures
        match position {
            Some(i) => i < visible.len() && first_position(hashes_of(visible.deep_view()), hash@)
                == Some(i as int) && lookup(visible.deep_view(), hash@) == Some(
                visible.deep_view()[i as int].game_move_entry,
            ),
            None => !hashes_of(visible.deep_view()).contains(hash@) && lookup(
                visible.deep_view(),
                hash@,
            ) is None,
        },
{
    let ghost hashes = hashes_of(visible.deep_view());
    let mut i: usize = 0;
    while i < visible.len()
        invariant
            i <= visible.len(),
            hashes == hashes_of(visible.deep_view()),
            forall|j: int| 0 <= j < i ==> hashes[j] != hash@,
        decreases visible.len() - i,
    {
        if visible[i].header_hash.same_as(hash) {
            proof {
                assert(is_first_position(hashes, hash@, i as int));
                lemma_first_position_is_unique(hashes, hash@, i as int);
            }
            return Some(i);
        }
        i += 1;
    }
    proof {
        if first_position(hashes, hash@) is Some {
            let k = choose|k: int| is_first_position(hashes, hash@, k);
            assert(hashes[k] == hash@);
        }
    }
    None
}

/// Gathers the moves that lead up to the reference `previous`, oldest
/// first, from the moves that are visible.
pub fn materialize_history(previous: &Option<RecordHash>, visible: &Vec<MoveInfo>) -> (history:
    Result<Vec<GameMoveEntry>, HistoryGap>)
    ensures
        match history {
            Ok(moves) => history_before(
                visible.deep_view(),
                previous.deep_view(),
                visible.len() as nat,
            ) == Ok::<Seq<GameMoveView>, HistoryGapView>(moves.deep_view()),
            Err(gap) => history_before(
                visible.deep_view(),
                previous.deep_view(),
                visible.len() as nat,
            ) == Err::<Seq<GameMoveView>, HistoryGapView>(gap@),
        },
{
    let ghost views = visible.deep_view();
    let ghost whole = history_before(views, previous.deep_view(), visible.len() as nat);
    let mut newer: Vec<GameMoveEntry> = Vec::new();
    let mut cursor = duplicate_optional_hash(previous);
    let mut fuel = visible.len();
    assert(newer.deep_view() =~= Seq::empty());
    assert(followed_by(whole, Seq::empty()) == whole) by {
        if let Ok(moves) = whole {
            assert(moves + Seq::<GameMoveView>::empty() =~= moves);
        }
    }
    loop
        invariant
            views == visible.deep_view(),
            fuel <= visible.len(),
            whole == history_before(views, previous.deep_view(), visible.len() as nat),
            whole == followed_by(
                history_before(views, cursor.deep_view(), fuel as nat),
                newer.deep_view(),
            ),
        decreases fuel,
    {
        let hash = match &cursor {
            None => {
                assert(Seq::<GameMoveView>::empty() + newer.deep_view() =~= newer.deep_view());
                return Ok(newer);
            },
            Some(hash) => hash.duplicate(),
        };
        let found = match find_move(visible, &hash) {
            None => {
                return Err(HistoryGap::Missing(hash));
            },
            Some(i) => visible[i].game_move_entry.duplicate(),
        };
        if fuel == 0 {
            return Err(HistoryGap::Cycle);
        }
        proof {
            let older = history_before(views, found@.previous_move_hash, (fuel - 1) as nat);
            let extended = newer.deep_view().insert(0, found@);
            if let Ok(moves) = older {
                assert(moves.push(found@) + newer.deep_view() =~= moves + extended);
            }
            assert(followed_by(
                history_before(views, cursor.deep_view(), fuel as nat),
                newer.deep_view(),
            ) == followed_by(older, extended));
        }
        cursor = duplicate_optional_hash(&found.previous_move_hash);
        let ghost before = newer.deep_view();
        let ghost found_view = found@;
        newer.insert(0, found);
        assert(newer.deep_view() =~= before.insert(0, found_view));
        fuel -= 1;
    }
}

/// The reference that is to be fetched next in order to tell the moves that
/// lead up to `previous`: the one under which nothing is visible yet. There
/// is none where the moves can be told, and none where the references lead
/// round in a circle.
pub fn next_missing_reference(previous: &Option<RecordHash>, visible: &Vec<MoveInfo>) -> (missing:
    Option<RecordHash>)
    ensures
        missing.deep_view() == (match history_before(
            visible.deep_view(),
            previous.deep_view(),
            visible.len() as nat,
        ) {
            Err(HistoryGapView::Missing(hash)) => Some(hash),
            _ => None,
        }),
{
    match materialize_history(previous, visible) {
        Err(HistoryGap::Missing(hash)) => Some(hash),
        _ => None,
    }
}

/// Each move of a chain is found under its hash among the moves of the
/// chain, in whatever order they are visible.
pub proof fn lemma_lookup_finds_move_of_chain(
    chain: Seq<MoveInfoView>,
    visible: Seq<MoveInfoView>,
    k: int,
)
    requires
        is_chain_of(chain, visible),
        0 <= k < chain.len(),
    ensures
        lookup(visible, chain[k].header_hash) == Some(chain[k].game_move_entry),
{
    let order = choose|order: Seq<int>| arranges(order, chain, visible);
    lemma_chain_has_no_defect(chain, visible);
    let hashes = hashes_of(visible);
    let at = order[k];
    assert(chain[k] == visible[at]);
    assert forall|j: int| 0 <= j < at implies hashes[j] != chain[k].header_hash by {
        assert(visible[j].header_hash != visible[at].header_hash);
    }
    assert(is_first_position(hashes, chain[k].header_hash, at));
    lemma_first_position_is_unique(hashes, chain[k].header_hash, at);
}

/// Going back from a move of a chain gathers the chain up to that move:
/// the validation of a move sees the moves before it in the very order in
/// which the resolver puts them.
pub proof fn lemma_history_follows_chain(
    chain: Seq<MoveInfoView>,
    visible: Seq<MoveInfoView>,
    k: int,
    fuel: nat,
)
    requires
        is_chain_of(chain, visible),
        0 <= k < chain.len(),
        fuel > k,
    ensures
        history_before(visible, Some(chain[k].header_hash), fuel) == Ok::<
            Seq<GameMoveView>,
            HistoryGapView,
        >(entries_of(chain.take(k + 1))),
    decreases k,
{
    lemma_lookup_finds_move_of_chain(chain, visible, k);
    let found = chain[k].game_move_entry;
    if k == 0 {
        assert(found.previous_move_hash is None);
        assert(entries_of(chain.take(1)) =~= Seq::<GameMoveView>::empty().push(found));
    } else {
        assert(found.previous_move_hash == Some(chain[k - 1].header_hash));
        lemma_history_follows_chain(chain, visible, k - 1, (fuel - 1) as nat);
        assert(entries_of(chain.take(k + 1)) =~= entries_of(chain.take(k)).push(found));
    }
}

} // verus!
