use hc_turn_based_game::current_games::{
    get_current_games_for, link_to_delete, removes_on_behalf, CurrentGame, GameLink, NotifyReply,
};
use hc_turn_based_game::entries::GameEntry;
use hc_turn_based_game::identity::{AgentKey, RecordHash};

fn hash(n: u8) -> RecordHash {
    RecordHash::new(vec![n; 39])
}

fn link(target: u8, created_by: u8) -> GameLink {
    GameLink { target: hash(target), create_link_hash: hash(created_by) }
}

fn current(game_hash: u8, created_at: i64) -> CurrentGame {
    CurrentGame {
        game_hash: hash(game_hash),
        game_entry: GameEntry {
            players: vec![AgentKey::new(vec![1]), AgentKey::new(vec![2])],
            created_at,
        },
    }
}

#[test]
fn the_pointer_to_the_game_is_taken_away() {
    let links = vec![link(1, 11), link(2, 12), link(3, 13)];
    assert_eq!(link_to_delete(&links, &hash(2)), Some(hash(12)));
    assert_eq!(link_to_delete(&links, &hash(3)), Some(hash(13)));
}

#[test]
fn of_two_pointers_to_one_game_the_first_is_taken_away() {
    let links = vec![link(1, 11), link(2, 12), link(2, 13)];
    assert_eq!(link_to_delete(&links, &hash(2)), Some(hash(12)));
}

#[test]
fn without_a_pointer_to_the_game_nothing_is_taken_away() {
    assert_eq!(link_to_delete(&vec![link(1, 11)], &hash(2)), None);
    assert_eq!(link_to_delete(&vec![], &hash(2)), None);
    // the hash of the record that set a pointer is not what it points to
    assert_eq!(link_to_delete(&vec![link(1, 2)], &hash(2)), None);
}

#[test]
fn a_pointer_is_removed_for_a_player_who_was_not_reached() {
    assert!(!removes_on_behalf(NotifyReply::Delivered));
    assert!(removes_on_behalf(NotifyReply::NetworkError));
    assert!(removes_on_behalf(NotifyReply::Unauthorized));
    assert!(removes_on_behalf(NotifyReply::AuthenticationFailed));
    assert!(removes_on_behalf(NotifyReply::CountersigningSession));
}

#[test]
fn the_games_in_progress_are_those_that_the_store_gave() {
    let fetched = vec![Some(current(1, 10)), None, Some(current(2, 20)), None];
    assert_eq!(get_current_games_for(&fetched), vec![current(1, 10), current(2, 20)]);
    assert_eq!(get_current_games_for(&vec![]), vec![]);
    assert_eq!(get_current_games_for(&vec![None, None]), vec![]);
}

#[test]
fn a_game_in_progress_is_listed_once() {
    let fetched = vec![
        Some(current(1, 10)),
        Some(current(2, 20)),
        Some(current(1, 30)),
        Some(current(2, 20)),
        Some(current(3, 40)),
    ];
    assert_eq!(
        get_current_games_for(&fetched),
        vec![current(1, 30), current(2, 20), current(3, 40)]
    );
}
