use hc_turn_based_game::entries::{GameMoveEntry, MoveInfo};
use hc_turn_based_game::history::{
    find_move, materialize_history, next_missing_reference, HistoryGap,
};
use hc_turn_based_game::identity::{AgentKey, RecordHash};

fn hash(n: u8) -> RecordHash {
    RecordHash::new(vec![n; 8])
}

fn entry(id: u8, previous: Option<u8>) -> GameMoveEntry {
    GameMoveEntry {
        game_hash: hash(200),
        author_pub_key: AgentKey::new(vec![id % 2]),
        game_move: vec![id],
        previous_move_hash: previous.map(hash),
    }
}

fn stored(id: u8, previous: Option<u8>) -> MoveInfo {
    MoveInfo { header_hash: hash(id), game_move_entry: entry(id, previous) }
}

fn three_moves() -> Vec<MoveInfo> {
    vec![stored(3, Some(2)), stored(1, None), stored(2, Some(1))]
}

#[test]
fn before_the_first_move_there_is_nothing() {
    assert_eq!(materialize_history(&None, &three_moves()), Ok(vec![]));
    assert_eq!(materialize_history(&None, &vec![]), Ok(vec![]));
}

#[test]
fn the_history_comes_oldest_first() {
    assert_eq!(
        materialize_history(&Some(hash(3)), &three_moves()),
        Ok(vec![entry(1, None), entry(2, Some(1)), entry(3, Some(2))])
    );
    assert_eq!(
        materialize_history(&Some(hash(2)), &three_moves()),
        Ok(vec![entry(1, None), entry(2, Some(1))])
    );
}

#[test]
fn a_reference_that_is_not_visible_is_a_gap() {
    assert_eq!(
        materialize_history(&Some(hash(7)), &three_moves()),
        Err(HistoryGap::Missing(hash(7)))
    );
    assert_eq!(materialize_history(&Some(hash(7)), &vec![]), Err(HistoryGap::Missing(hash(7))));
    let visible = vec![stored(3, Some(2)), stored(2, Some(1))];
    assert_eq!(
        materialize_history(&Some(hash(3)), &visible),
        Err(HistoryGap::Missing(hash(1)))
    );
}

#[test]
fn references_in_a_circle_are_told() {
    let visible = vec![stored(1, Some(2)), stored(2, Some(1))];
    assert_eq!(materialize_history(&Some(hash(1)), &visible), Err(HistoryGap::Cycle));
    let own = vec![stored(1, Some(1))];
    assert_eq!(materialize_history(&Some(hash(1)), &own), Err(HistoryGap::Cycle));
}

#[test]
fn the_next_reference_to_fetch_is_the_one_that_is_not_visible() {
    let mut visible: Vec<MoveInfo> = vec![];
    assert_eq!(next_missing_reference(&Some(hash(3)), &visible), Some(hash(3)));
    visible.push(stored(3, Some(2)));
    assert_eq!(next_missing_reference(&Some(hash(3)), &visible), Some(hash(2)));
    visible.push(stored(2, Some(1)));
    assert_eq!(next_missing_reference(&Some(hash(3)), &visible), Some(hash(1)));
    visible.push(stored(1, None));
    assert_eq!(next_missing_reference(&Some(hash(3)), &visible), None);
    assert_eq!(next_missing_reference(&None, &vec![]), None);
}

#[test]
fn in_a_circle_there_is_nothing_to_fetch() {
    let visible = vec![stored(1, Some(2)), stored(2, Some(1))];
    assert_eq!(next_missing_reference(&Some(hash(1)), &visible), None);
}

#[test]
fn the_first_of_two_moves_under_one_hash_is_found() {
    let visible = vec![stored(1, None), stored(2, Some(1)), stored(2, None)];
    assert_eq!(find_move(&visible, &hash(2)), Some(1));
    assert_eq!(find_move(&visible, &hash(1)), Some(0));
    assert_eq!(find_move(&visible, &hash(3)), None);
}
