use hc_turn_based_game::entries::GameMoveEntry;
use hc_turn_based_game::error::ProtocolError;
use hc_turn_based_game::identity::{AgentKey, RecordHash};
use hc_turn_based_game::turn::{expected_author, position_of, validate_it_is_authors_turn};

fn key(n: u8) -> AgentKey {
    AgentKey::new(vec![n, n, n])
}

fn move_by(author: u8) -> GameMoveEntry {
    GameMoveEntry {
        game_hash: RecordHash::new(vec![200]),
        author_pub_key: key(author),
        game_move: vec![],
        previous_move_hash: None,
    }
}

#[test]
fn the_first_player_moves_first() {
    let players = vec![key(1), key(2)];
    assert_eq!(expected_author(None, &players), 0);
    assert_eq!(validate_it_is_authors_turn(&key(1), None, &players), Ok(()));
    assert_eq!(
        validate_it_is_authors_turn(&key(2), None, &players),
        Err(ProtocolError::NotAuthorsTurn)
    );
}

#[test]
fn two_players_take_turns() {
    let players = vec![key(1), key(2)];
    let mut last: Option<GameMoveEntry> = None;
    for turn in 0..8usize {
        assert_eq!(expected_author(last.as_ref(), &players), turn % 2);
        let author = players[turn % 2].clone();
        let other = players[(turn + 1) % 2].clone();
        assert_eq!(validate_it_is_authors_turn(&author, last.as_ref(), &players), Ok(()));
        assert_eq!(
            validate_it_is_authors_turn(&other, last.as_ref(), &players),
            Err(ProtocolError::NotAuthorsTurn)
        );
        last = Some(GameMoveEntry { author_pub_key: author, ..move_by(0) });
    }
}

#[test]
fn after_the_last_player_the_first_moves_again() {
    let players = vec![key(1), key(2), key(3)];
    assert_eq!(expected_author(Some(&move_by(1)), &players), 1);
    assert_eq!(expected_author(Some(&move_by(2)), &players), 2);
    assert_eq!(expected_author(Some(&move_by(3)), &players), 0);
}

#[test]
fn a_stranger_is_followed_by_the_first_player() {
    let players = vec![key(1), key(2)];
    assert_eq!(expected_author(Some(&move_by(9)), &players), 0);
}

#[test]
fn a_single_player_always_moves() {
    let players = vec![key(1)];
    assert_eq!(expected_author(Some(&move_by(1)), &players), 0);
    assert_eq!(validate_it_is_authors_turn(&key(1), Some(&move_by(1)), &players), Ok(()));
}

#[test]
fn in_a_game_without_players_it_is_nobodys_turn() {
    assert_eq!(
        validate_it_is_authors_turn(&key(1), None, &vec![]),
        Err(ProtocolError::NotAuthorsTurn)
    );
}

#[test]
fn the_first_of_equal_keys_counts() {
    let players = vec![key(1), key(2), key(1)];
    assert_eq!(position_of(&players, &key(1)), Some(0));
    assert_eq!(position_of(&players, &key(2)), Some(1));
    assert_eq!(position_of(&players, &key(3)), None);
    assert_eq!(expected_author(Some(&move_by(1)), &players), 1);
}
