//! The order of a game's moves, rebuilt from the moves themselves.
//!
//! The store hands out a game's moves in no particular order. Each move names
//! the move it follows, so the moves of a sound game form one chain from the
//! first move to the latest. This module rebuilds that chain, and turns down
//! every set of moves that is not one.

use vstd::prelude::*;
use vstd::set_lib::lemma_int_range;
use vstd::set_lib::lemma_subset_equality;
use vstd::set_lib::set_int_range;
use crate::entries::MoveInfo;
use crate::entries::MoveInfoView;
use crate::error::StructuralError;

verus! {

/// The move names no previous move.
pub open spec fn is_first(m: MoveInfoView) -> bool {
    m.game_move_entry.previous_move_hash is None
}

/// `next` names `previous` as the move it follows.
pub open spec fn follows(next: MoveInfoView, previous: MoveInfoView) -> bool {
    next.game_move_entry.previous_move_hash == Some(previous.header_hash)
}

/// Both moves name the same previous move.
pub open spec fn same_previous(a: MoveInfoView, b: MoveInfoView) -> bool {
    &&& a.game_move_entry.previous_move_hash is Some
    &&& a.game_move_entry.previous_move_hash == b.game_move_entry.previous_move_hash
}

/// Two of the moves name the same previous move.
pub open spec fn has_fork(moves: Seq<MoveInfoView>) -> bool {
    exists|i: int, j: int|
        0 <= i < j < moves.len() && same_previous(#[trigger] moves[i], #[trigger] moves[j])
}

/// Two of the moves are held under the same hash.
pub open spec fn has_duplicate(moves: Seq<MoveInfoView>) -> bool {
    exists|i: int, j: int|
        0 <= i < j < moves.len() && (#[trigger] moves[i]).header_hash == (
        #[trigger] moves[j]).header_hash
}

/// One of the moves names no previous move.
pub open spec fn has_first(moves: Seq<MoveInfoView>) -> bool {
    exists|i: int| 0 <= i < moves.len() && is_first(#[trigger] moves[i])
}

/// Two of the moves name no previous move.
pub open spec fn has_two_firsts(moves: Seq<MoveInfoView>) -> bool {
    exists|i: int, j: int|
        0 <= i < j < moves.len() && is_first(#[trigger] moves[i]) && is_first(#[trigger] moves[j])
}

/// The moves stand in the order in which they were made: the first names no
/// previous move, each other one names the move just before it, and no hash
/// occurs twice.
pub open spec fn is_causal_chain(chain: Seq<MoveInfoView>) -> bool {
    &&& chain.len() > 0 ==> is_first(chain[0])
    &&& forall|k: int| 0 < k < chain.len() ==> follows(#[trigger] chain[k], chain[k - 1])
    &&& forall|i: int, j: int|
        0 <= i < j < chain.len() ==> (#[trigger] chain[i]).header_hash != (
        #[trigger] chain[j]).header_hash
}

/// `a` holds the items of `b` in another order: `a[k]` is `b[order[k]]`, and
/// `order` names every position of `b` once.
pub open spec fn arranges<T>(order: Seq<int>, a: Seq<T>, b: Seq<T>) -> bool {
    &&& order.len() == a.len()
    &&& a.len() == b.len()
    &&& forall|k: int| 0 <= k < order.len() ==> 0 <= #[trigger] order[k] < b.len()
    &&& forall|j: int, k: int|
        0 <= j < k < order.len() ==> #[trigger] order[j] != #[trigger] order[k]
    &&& forall|k: int| 0 <= k < a.len() ==> #[trigger] a[k] == b[order[k]]
}

/// `a` holds exactly the items of `b`, in some order.
pub open spec fn is_rearrangement<T>(a: Seq<T>, b: Seq<T>) -> bool {
    exists|order: Seq<int>| arranges(order, a, b)
}

/// The moves can be put in the order in which they were made.
pub open spec fn forms_chain(moves: Seq<MoveInfoView>) -> bool {
    exists|chain: Seq<MoveInfoView>| is_chain_of(chain, moves)
}

/// `chain` holds the moves in the order in which they were made.
pub open spec fn is_chain_of(chain: Seq<MoveInfoView>, moves: Seq<MoveInfoView>) -> bool {
    is_causal_chain(chain) && is_rearrangement(chain, moves)
}

/// What the resolver makes of a set of moves: their chain, or the first of
/// these defects that the set has: a fork, a hash that occurs twice, no first
/// move, several first moves, moves that the chain does not reach.
pub open spec fn resolve(moves: Seq<MoveInfoView>) -> Result<Seq<MoveInfoView>, StructuralError> {
    if has_fork(moves) {
        Err(StructuralError::Fork)
    } else if has_duplicate(moves) {
        Err(StructuralError::DuplicateRecord)
    } else if moves.len() > 0 && !has_first(moves) {
        Err(StructuralError::NoFirstMove)
    } else if has_two_firsts(moves) {
        Err(StructuralError::TwoFirstMoves)
    } else if forms_chain(moves) {
        Ok(choose|chain: Seq<MoveInfoView>| is_chain_of(chain, moves))
    } else {
        Err(StructuralError::MissingMoves)
    }
}

/// An order that names every position once can be turned round: if `a` is
/// `b` rearranged, then `b` is `a` rearranged.
pub proof fn lemma_arrangement_inverse<T>(order: Seq<int>, a: Seq<T>, b: Seq<T>) -> (inverse: Seq<
    int,
>)
    requires
        arranges(order, a, b),
    ensures
        arranges(inverse, b, a),
        forall|k: int| 0 <= k < order.len() ==> inverse[#[trigger] order[k]] == k,
        forall|m: int| 0 <= m < order.len() ==> order[#[trigger] inverse[m]] == m,
{
    let n = order.len() as int;
    assert(order.no_duplicates()) by {
        assert forall|i: int, j: int|
            0 <= i < order.len() && 0 <= j < order.len() && i != j implies order[i] != order[j] by {
            if i < j {
                assert(order[i] != order[j]);
            } else {
                assert(order[j] != order[i]);
            }
        }
    }
    order.unique_seq_to_set();
    lemma_int_range(0, n);
    let positions = set_int_range(0, n);
    assert(order.to_set().subset_of(positions)) by {
        assert forall|x: int| order.to_set().contains(x) implies positions.contains(x) by {
            let k = choose|k: int| 0 <= k < order.len() && order[k] == x;
            assert(0 <= order[k] < n);
        }
    }
    vstd::set_lib::lemma_set_subset_finite(positions, order.to_set());
    lemma_subset_equality(order.to_set(), positions);
    let inverse = Seq::new(n as nat, |m: int| choose|k: int| 0 <= k < n && order[k] == m);
    assert forall|m: int| 0 <= m < n implies 0 <= #[trigger] inverse[m] < n && order[inverse[m]]
        == m by {
        assert(positions.contains(m));
        assert(order.to_set().contains(m));
        assert(order.contains(m));
        let k0 = choose|k: int| 0 <= k < order.len() && order[k] == m;
        assert(0 <= k0 < n && order[k0] == m);
    }
    assert forall|k: int| 0 <= k < n implies inverse[#[trigger] order[k]] == k by {
        let m = order[k];
        let k2 = inverse[m];
        assert(order[k2] == m);
        if k2 < k {
            assert(order[k2] != order[k]);
        } else if k < k2 {
            assert(order[k] != order[k2]);
        }
    }
    assert forall|j: int, k: int| 0 <= j < k < n implies #[trigger] inverse[j] != #[trigger] inverse[k] by {
        assert(order[inverse[j]] == j);
        assert(order[inverse[k]] == k);
    }
    assert forall|m: int| 0 <= m < n implies #[trigger] b[m] == a[inverse[m]] by {
        let k = inverse[m];
        assert(a[k] == b[order[k]]);
    }
    inverse
}

/// `walk` names positions of `moves` that follow one another from the first
/// move on.
pub open spec fn is_walk(walk: Seq<int>, moves: Seq<MoveInfoView>) -> bool {
    &&& forall|k: int| 0 <= k < walk.len() ==> 0 <= #[trigger] walk[k] < moves.len()
    &&& walk.len() > 0 ==> is_first(moves[walk[0]])
    &&& forall|k: int| 0 < k < walk.len() ==> follows(moves[#[trigger] walk[k]], moves[walk[k - 1]])
}

/// Where no two moves name the same previous move and only one move is a
/// first move, there is one way to walk from the first move on.
pub proof fn lemma_walks_agree(
    walk1: Seq<int>,
    walk2: Seq<int>,
    moves: Seq<MoveInfoView>,
    k: int,
)
    requires
        is_walk(walk1, moves),
        is_walk(walk2, moves),
        !has_fork(moves),
        !has_two_firsts(moves),
        0 <= k < walk1.len(),
        k < walk2.len(),
    ensures
        walk1[k] == walk2[k],
    decreases k,
{
    let i = walk1[k];
    let j = walk2[k];
    if k == 0 {
        if i < j {
            assert(is_first(moves[i]) && is_first(moves[j]));
        } else if j < i {
            assert(is_first(moves[j]) && is_first(moves[i]));
        }
    } else {
        lemma_walks_agree(walk1, walk2, moves, k - 1);
        assert(follows(moves[walk1[k]], moves[walk1[k - 1]]));
        assert(follows(moves[walk2[k]], moves[walk2[k - 1]]));
        if i < j {
            assert(same_previous(moves[i], moves[j]));
        } else if j < i {
            assert(same_previous(moves[j], moves[i]));
        }
    }
}

/// The order in which a chain holds the moves is a walk through them.
pub proof fn lemma_chain_order_is_walk(
    order: Seq<int>,
    chain: Seq<MoveInfoView>,
    moves: Seq<MoveInfoView>,
)
    requires
        is_causal_chain(chain),
        arranges(order, chain, moves),
    ensures
        is_walk(order, moves),
{
    assert forall|k: int| 0 < k < order.len() implies follows(
        moves[#[trigger] order[k]],
        moves[order[k - 1]],
    ) by {
        assert(follows(chain[k], chain[k - 1]));
        assert(chain[k] == moves[order[k]]);
        assert(chain[k - 1] == moves[order[k - 1]]);
    }
    if order.len() > 0 {
        assert(chain[0] == moves[order[0]]);
    }
}

/// Moves that can be put in a chain have none of the defects: no fork, no
/// hash twice, and, unless there are no moves at all, exactly one first move.
pub proof fn lemma_chain_has_no_defect(chain: Seq<MoveInfoView>, moves: Seq<MoveInfoView>)
    requires
        is_chain_of(chain, moves),
    ensures
        !has_fork(moves),
        !has_duplicate(moves),
        moves.len() > 0 ==> has_first(moves),
        !has_two_firsts(moves),
{
    let order = choose|order: Seq<int>| arranges(order, chain, moves);
    let back = lemma_arrangement_inverse(order, chain, moves);
    // moves[i] == chain[back[i]]
    assert forall|i: int, j: int| 0 <= i < j < moves.len() implies !same_previous(
        #[trigger] moves[i],
        #[trigger] moves[j],
    ) by {
        let a = back[i];
        let b = back[j];
        assert(moves[i] == chain[a] && moves[j] == chain[b]);
        assert(a != b);
        if same_previous(moves[i], moves[j]) {
            assert(a != 0 && b != 0);
            assert(follows(chain[a], chain[a - 1]));
            assert(follows(chain[b], chain[b - 1]));
            if a < b {
                assert(chain[a - 1].header_hash != chain[b - 1].header_hash);
            } else {
                assert(chain[b - 1].header_hash != chain[a - 1].header_hash);
            }
        }
    }
    assert forall|i: int, j: int| 0 <= i < j < moves.len() implies (#[trigger] moves[i]).header_hash
        != (#[trigger] moves[j]).header_hash by {
        let a = back[i];
        let b = back[j];
        assert(moves[i] == chain[a] && moves[j] == chain[b]);
        if a < b {
            assert(chain[a].header_hash != chain[b].header_hash);
        } else {
            assert(a != b);
            assert(chain[b].header_hash != chain[a].header_hash);
        }
    }
    assert forall|i: int, j: int| 0 <= i < j < moves.len() implies !(is_first(#[trigger] moves[i])
        && is_first(#[trigger] moves[j])) by {
        let a = back[i];
        let b = back[j];
        assert(moves[i] == chain[a] && moves[j] == chain[b]);
        assert(a != b);
        if a != 0 {
            assert(follows(chain[a], chain[a - 1]));
        }
        if b != 0 {
            assert(follows(chain[b], chain[b - 1]));
        }
    }
    if moves.len() > 0 {
        assert(chain[0] == moves[order[0]]);
        assert(is_first(moves[order[0]]));
    }
}

/// A set of moves has at most one chain.
pub proof fn lemma_chain_is_unique(
    chain1: Seq<MoveInfoView>,
    chain2: Seq<MoveInfoView>,
    moves: Seq<MoveInfoView>,
)
    requires
        is_chain_of(chain1, moves),
        is_chain_of(chain2, moves),
    ensures
        chain1 == chain2,
{
    let order1 = choose|order: Seq<int>| arranges(order, chain1, moves);
    let order2 = choose|order: Seq<int>| arranges(order, chain2, moves);
    lemma_chain_has_no_defect(chain1, moves);
    lemma_chain_order_is_walk(order1, chain1, moves);
    lemma_chain_order_is_walk(order2, chain2, moves);
    assert forall|k: int| 0 <= k < chain1.len() implies chain1[k] == chain2[k] by {
        lemma_walks_agree(order1, order2, moves, k);
        assert(chain1[k] == moves[order1[k]]);
        assert(chain2[k] == moves[order2[k]]);
    }
    assert(chain1 =~= chain2);
}

/// The resolver gives back the chain of a set of moves whenever there is one.
pub proof fn lemma_resolve_finds_chain(chain: Seq<MoveInfoView>, moves: Seq<MoveInfoView>)
    requires
        is_chain_of(chain, moves),
    ensures
        resolve(moves) == Ok::<Seq<MoveInfoView>, StructuralError>(chain),
{
    lemma_chain_has_no_defect(chain, moves);
    let chosen = choose|c: Seq<MoveInfoView>| is_chain_of(c, moves);
    lemma_chain_is_unique(chosen, chain, moves);
}

/// What the resolver gives back holds exactly the moves it was given, in the
/// order in which they were made.
pub proof fn lemma_resolved_is_chain(moves: Seq<MoveInfoView>, chain: Seq<MoveInfoView>)
    requires
        resolve(moves) == Ok::<Seq<MoveInfoView>, StructuralError>(chain),
    ensures
        is_causal_chain(chain),
        is_rearrangement(chain, moves),
{
}

/// Moves that were made one after the other come back in exactly that order,
/// in whatever order they arrive.
pub proof fn lemma_resolve_ignores_arrival_order(
    chain: Seq<MoveInfoView>,
    arrival: Seq<MoveInfoView>,
)
    requires
        is_causal_chain(chain),
        is_rearrangement(arrival, chain),
    ensures
        resolve(arrival) == Ok::<Seq<MoveInfoView>, StructuralError>(chain),
{
    let order = choose|order: Seq<int>| arranges(order, arrival, chain);
    let back = lemma_arrangement_inverse(order, arrival, chain);
    assert(is_rearrangement(chain, arrival));
    lemma_resolve_finds_chain(chain, arrival);
}

/// Two moves that name the same previous move are turned down as a fork, in
/// whatever order the moves arrive.
pub proof fn lemma_fork_is_always_rejected(moves: Seq<MoveInfoView>, arrival: Seq<MoveInfoView>)
    requires
        has_fork(moves),
        is_rearrangement(arrival, moves),
    ensures
        resolve(arrival) == Err::<Seq<MoveInfoView>, StructuralError>(StructuralError::Fork),
{
    let order = choose|order: Seq<int>| arranges(order, arrival, moves);
    let back = lemma_arrangement_inverse(order, arrival, moves);
    // moves[i] == arrival[back[i]]
    let (i, j) = choose|i: int, j: int|
        0 <= i < j < moves.len() && same_previous(#[trigger] moves[i], #[trigger] moves[j]);
    let a = back[i];
    let b = back[j];
    assert(moves[i] == arrival[a] && moves[j] == arrival[b]);
    assert(a != b);
    if a < b {
        assert(same_previous(arrival[a], arrival[b]));
    } else {
        assert(same_previous(arrival[b], arrival[a]));
    }
}

fn names_same_previous(a: &MoveInfo, b: &MoveInfo) -> (same: bool)
    ensures
        same == same_previous(a@, b@),
{
    match &a.game_move_entry.previous_move_hash {
        None => false,
        Some(previous_of_a) => match &b.game_move_entry.previous_move_hash {
            None => false,
            Some(previous_of_b) => previous_of_a.same_as(previous_of_b),
        },
    }
}

fn names_as_previous(next: &MoveInfo, previous: &MoveInfo) -> (named: bool)
    ensures
        named == follows(next@, previous@),
{
    match &next.game_move_entry.previous_move_hash {
        None => false,
        Some(hash) => hash.same_as(&previous.header_hash),
    }
}

fn find_fork(moves: &Vec<MoveInfo>) -> (found: bool)
    ensures
        found == has_fork(moves.deep_view()),
{
    let ghost views = moves.deep_view();
    let n = moves.len();
    let mut i: usize = 0;
    while i < n
        invariant
            n == moves.len(),
            views == moves.deep_view(),
            i <= n,
            forall|a: int, b: int|
                0 <= a < b < n && a < i ==> !same_previous(#[trigger] views[a], #[trigger] views[b]),
        decreases n - i,
    {
        let mut j: usize = i + 1;
        while j < n
            invariant
                n == moves.len(),
                views == moves.deep_view(),
                i < j <= n,
                forall|a: int, b: int|
                    0 <= a < b < n && a < i ==> !same_previous(
                        #[trigger] views[a],
                        #[trigger] views[b],
                    ),
                forall|b: int| i < b < j ==> !same_previous(views[i as int], #[trigger] views[b]),
            decreases n - j,
        {
            if names_same_previous(&moves[i], &moves[j]) {
                assert(same_previous(views[i as int], views[j as int]));
                return true;
            }
            j += 1;
        }
        i += 1;
    }
    false
}

fn find_duplicate(moves: &Vec<MoveInfo>) -> (found: bool)
    ensures
        found == has_duplicate(moves.deep_view()),
{
    let ghost views = moves.deep_view();
    let n = moves.len();
    let mut i: usize = 0;
    while i < n
        invariant
            n == moves.len(),
            views == moves.deep_view(),
            i <= n,
            forall|a: int, b: int|
                0 <= a < b < n && a < i ==> (#[trigger] views[a]).header_hash != (
                #[trigger] views[b]).header_hash,
        decreases n - i,
    {
        let mut j: usize = i + 1;
        while j < n
            invariant
                n == moves.len(),
                views == moves.deep_view(),
                i < j <= n,
                forall|a: int, b: int|
                    0 <= a < b < n && a < i ==> (#[trigger] views[a]).header_hash != (
                    #[trigger] views[b]).header_hash,
                forall|b: int|
                    i < b < j ==> views[i as int].header_hash != (#[trigger] views[b]).header_hash,
            decreases n - j,
        {
            if moves[i].header_hash.same_as(&moves[j].header_hash) {
                assert(views[i as int].header_hash == views[j as int].header_hash);
                return true;
            }
            j += 1;
        }
        i += 1;
    }
    false
}

/// The position of the one move that names no previous move.
fn find_first(moves: &Vec<MoveInfo>) -> (found: Result<usize, StructuralError>)
    ensures
        match found {
            Ok(first) => first < moves.len() && is_first(moves.deep_view()[first as int])
                && !has_two_firsts(moves.deep_view()),
            Err(StructuralError::NoFirstMove) => !has_first(moves.deep_view()),
            Err(StructuralError::TwoFirstMoves) => has_two_firsts(moves.deep_view()),
            Err(_) => false,
        },
{
    let ghost views = moves.deep_view();
    let n = moves.len();
    let mut first: Option<usize> = None;
    let mut i: usize = 0;
    while i < n
        invariant
            n == moves.len(),
            views == moves.deep_view(),
            i <= n,
            match first {
                Some(f) => f < i && is_first(views[f as int]) && forall|k: int|
                    0 <= k < i && k != f ==> !is_first(#[trigger] views[k]),
                None => forall|k: int| 0 <= k < i ==> !is_first(#[trigger] views[k]),
            },
        decreases n - i,
    {
        if moves[i].game_move_entry.previous_move_hash.is_none() {
            match first {
                Some(f) => {
                    assert(is_first(views[f as int]) && is_first(views[i as int]));
                    return Err(StructuralError::TwoFirstMoves);
                },
                None => {
                    first = Some(i);
                },
            }
        }
        i += 1;
    }
    match first {
        Some(f) => Ok(f),
        None => Err(StructuralError::NoFirstMove),
    }
}

/// The position of a move that names the move at `current` as its previous
/// move.
fn find_successor(moves: &Vec<MoveInfo>, current: usize) -> (found: Option<usize>)
    requires
        current < moves.len(),
    ensures
        match found {
            Some(next) => next < moves.len() && follows(
                moves.deep_view()[next as int],
                moves.deep_view()[current as int],
            ),
            None => forall|j: int|
                0 <= j < moves.len() ==> !follows(
                    #[trigger] moves.deep_view()[j],
                    moves.deep_view()[current as int],
                ),
        },
{
    let ghost views = moves.deep_view();
    let n = moves.len();
    let mut j: usize = 0;
    while j < n
        invariant
            n == moves.len(),
            views == moves.deep_view(),
            current < n,
            j <= n,
            forall|k: int| 0 <= k < j ==> !follows(#[trigger] views[k], views[current as int]),
        decreases n - j,
    {
        if names_as_previous(&moves[j], &moves[current]) {
            return Some(j);
        }
        j += 1;
    }
    None
}

/// Puts the moves of a game in the order in which they were made.
///
/// The order is that of the chain alone: each move after the move that it
/// names as its previous one. Neither the order of arrival nor any time
/// stamp plays a part. No moves give no moves.
pub fn order_moves(moves: &Vec<MoveInfo>) -> (ordered: Result<Vec<MoveInfo>, StructuralError>)
    ensures
        match ordered {
            Ok(chain) => resolve(moves.deep_view()) == Ok::<Seq<MoveInfoView>, StructuralError>(
                chain.deep_view(),
            ),
            Err(e) => resolve(moves.deep_view()) == Err::<Seq<MoveInfoView>, StructuralError>(e),
        },
{
    let ghost views = moves.deep_view();
    let n = moves.len();
    let mut chain: Vec<MoveInfo> = Vec::new();
    if n == 0 {
        proof {
            let order = Seq::<int>::empty();
            assert(arranges(order, chain.deep_view(), views));
            assert(is_chain_of(chain.deep_view(), views));
            lemma_resolve_finds_chain(chain.deep_view(), views);
        }
        return Ok(chain);
    }
    if find_fork(moves) {
        return Err(StructuralError::Fork);
    }
    if find_duplicate(moves) {
        return Err(StructuralError::DuplicateRecord);
    }
    let first = match find_first(moves) {
        Ok(first) => first,
        Err(e) => {
            return Err(e);
        },
    };
    assert(has_first(views)) by {
        assert(is_first(views[first as int]));
    }
    let mut current = first;
    let ghost mut walk: Seq<int> = seq![first as int];
    chain.push(moves[first].duplicate());
    while chain.len() < n
        invariant
            n == moves.len(),
            views == moves.deep_view(),
            !has_fork(views),
            !has_duplicate(views),
            has_first(views),
            !has_two_firsts(views),
            1 <= chain.len() <= n,
            walk.len() == chain.len(),
            is_walk(walk, views),
            forall|j: int, k: int| 0 <= j < k < walk.len() ==> #[trigger] walk[j] != #[trigger] walk[k],
            forall|k: int| 0 <= k < chain.len() ==> (#[trigger] chain@[k])@ == views[walk[k]],
            current == walk[walk.len() - 1],
        decreases n - chain.len(),
    {
        match find_successor(moves, current) {
            None => {
                proof {
                    if forms_chain(views) {
                        let full = choose|c: Seq<MoveInfoView>| is_chain_of(c, views);
                        let order = choose|order: Seq<int>| arranges(order, full, views);
                        lemma_chain_order_is_walk(order, full, views);
                        let m = walk.len() as int;
                        lemma_walks_agree(walk, order, views, m - 1);
                        assert(follows(views[order[m]], views[order[m - 1]]));
                        assert(false);
                    }
                }
                return Err(StructuralError::MissingMoves);
            },
            Some(next) => {
                proof {
                    let m = walk.len() as int;
                    assert forall|a: int| 0 <= a < m implies #[trigger] walk[a] != next by {
                        if walk[a] == next as int {
                            if a == 0 {
                                assert(is_first(views[walk[0]]));
                            } else {
                                assert(follows(views[walk[a]], views[walk[a - 1]]));
                                // both name the same previous hash
                                let x = walk[a - 1];
                                let y = walk[m - 1];
                                assert(views[x].header_hash == views[y].header_hash);
                                assert(walk[a - 1] != walk[m - 1]);
                                if x < y {
                                    assert(views[x].header_hash != views[y].header_hash);
                                } else {
                                    assert(views[y].header_hash != views[x].header_hash);
                                }
                            }
                        }
                    }
                    walk = walk.push(next as int);
                }
                chain.push(moves[next].duplicate());
                current = next;
            },
        }
    }
    proof {
        let out = chain.deep_view();
        assert(arranges(walk, out, views));
        assert forall|k: int| 0 < k < out.len() implies follows(#[trigger] out[k], out[k - 1]) by {
            assert(follows(views[walk[k]], views[walk[k - 1]]));
        }
        assert forall|i: int, j: int| 0 <= i < j < out.len() implies (#[trigger] out[i]).header_hash
            != (#[trigger] out[j]).header_hash by {
            let x = walk[i];
            let y = walk[j];
            assert(x != y);
            if x < y {
                assert(views[x].header_hash != views[y].header_hash);
            } else {
                assert(views[y].header_hash != views[x].header_hash);
            }
        }
        assert(is_chain_of(out, views));
        lemma_resolve_finds_chain(out, views);
    }
    Ok(chain)
}

} // verus!
