use hc_turn_based_game::entries::GameEntry;
use hc_turn_based_game::error::{
    AuthorizationError, GameError, ProtocolError, StructuralError, ValidationOutcome,
};
use hc_turn_based_game::game::{
    validate_created_game, validate_game_entry, validate_game_operation, validate_player_link,
    Operation,
};
use hc_turn_based_game::identity::{AgentKey, RecordHash};
use hc_turn_based_game::tictactoe::{TicTacToe, TicTacToeError};
use hc_turn_based_game::turn_based_game::player_count_allowed;

type Outcome = ValidationOutcome<TicTacToeError>;

fn key(n: u8) -> AgentKey {
    AgentKey::new(vec![n; 39])
}

fn game_of(players: &[u8]) -> GameEntry {
    GameEntry { players: players.iter().map(|n| key(*n)).collect(), created_at: 1_700_000_000_000 }
}

fn invalid(error: StructuralError) -> Outcome {
    ValidationOutcome::Invalid(GameError::Structure(error))
}

#[test]
fn a_game_of_two_different_players_is_valid() {
    assert_eq!(validate_game_entry::<TicTacToe>(&game_of(&[1, 2])), Outcome::Valid);
}

#[test]
fn a_game_with_a_player_listed_twice_is_turned_down() {
    assert_eq!(
        validate_game_entry::<TicTacToe>(&game_of(&[1, 1])),
        invalid(StructuralError::RepeatedPlayer)
    );
}

#[test]
fn a_repeated_player_is_named_before_the_number_of_players() {
    assert_eq!(
        validate_game_entry::<TicTacToe>(&game_of(&[1, 2, 1])),
        invalid(StructuralError::RepeatedPlayer)
    );
}

#[test]
fn a_game_with_too_few_players_is_turned_down() {
    assert_eq!(
        validate_game_entry::<TicTacToe>(&game_of(&[1])),
        invalid(StructuralError::BadNumberOfPlayers)
    );
    assert_eq!(
        validate_game_entry::<TicTacToe>(&game_of(&[])),
        invalid(StructuralError::BadNumberOfPlayers)
    );
}

#[test]
fn a_game_with_too_many_players_is_turned_down() {
    assert_eq!(
        validate_game_entry::<TicTacToe>(&game_of(&[1, 2, 3])),
        invalid(StructuralError::BadNumberOfPlayers)
    );
}

#[test]
fn only_two_players_are_allowed() {
    assert!(!player_count_allowed::<TicTacToe>(0));
    assert!(!player_count_allowed::<TicTacToe>(1));
    assert!(player_count_allowed::<TicTacToe>(2));
    assert!(!player_count_allowed::<TicTacToe>(3));
    assert!(!player_count_allowed::<TicTacToe>(usize::MAX));
}

#[test]
fn the_time_of_creation_is_not_looked_at() {
    let mut game = game_of(&[1, 2]);
    game.created_at = i64::MIN;
    assert_eq!(validate_game_entry::<TicTacToe>(&game), Outcome::Valid);
}

#[test]
fn a_created_game_with_its_content_is_validated() {
    let hash = RecordHash::new(vec![9; 39]);
    assert_eq!(
        validate_created_game::<TicTacToe>(Some(&game_of(&[1, 2])), Some(&hash)),
        Outcome::Valid
    );
    assert_eq!(
        validate_created_game::<TicTacToe>(Some(&game_of(&[1, 1])), None),
        invalid(StructuralError::RepeatedPlayer)
    );
}

#[test]
fn a_created_game_without_its_content_is_waited_for() {
    let hash = RecordHash::new(vec![9; 39]);
    assert_eq!(
        validate_created_game::<TicTacToe>(None, Some(&hash)),
        Outcome::Pending(vec![hash])
    );
}

#[test]
fn a_created_game_without_content_and_hash_is_turned_down() {
    assert_eq!(
        validate_created_game::<TicTacToe>(None, None),
        invalid(StructuralError::NoEntry)
    );
}

#[test]
fn a_game_is_created_and_never_changed() {
    let game = game_of(&[1, 2]);
    assert_eq!(validate_game_operation::<TicTacToe>(Operation::Create, &game), Outcome::Valid);
    let immutable: Outcome =
        ValidationOutcome::Invalid(GameError::Protocol(ProtocolError::ImmutableRecord));
    assert_eq!(validate_game_operation::<TicTacToe>(Operation::Update, &game), immutable);
    assert_eq!(validate_game_operation::<TicTacToe>(Operation::Delete, &game), immutable);
    assert_eq!(
        validate_game_operation::<TicTacToe>(Operation::Create, &game_of(&[1])),
        invalid(StructuralError::BadNumberOfPlayers)
    );
}

#[test]
fn only_a_player_points_to_a_game() {
    let game = game_of(&[1, 2]);
    let valid: Outcome = validate_player_link(&key(2), &game);
    assert_eq!(valid, Outcome::Valid);
    let stranger: Outcome = validate_player_link(&key(3), &game);
    assert_eq!(
        stranger,
        ValidationOutcome::Invalid(GameError::Authorization(AuthorizationError::NotAPlayer))
    );
}

#[test]
fn a_change_to_any_record_is_turned_down() {
    let outcome: Outcome = hc_turn_based_game::game::validate_change();
    assert_eq!(
        outcome,
        ValidationOutcome::Invalid(GameError::Protocol(ProtocolError::ImmutableRecord))
    );
}
