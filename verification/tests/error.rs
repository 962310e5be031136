use hc_turn_based_game::error::{
    AuthorizationError, GameError, ProtocolError, StructuralError, ValidationOutcome,
};
use hc_turn_based_game::identity::RecordHash;

#[test]
fn an_outcome_can_wait_for_one_record() {
    let hash = RecordHash::new(vec![1, 2, 3]);
    let outcome: ValidationOutcome<u8> = ValidationOutcome::pending_on(&hash);
    assert_eq!(outcome, ValidationOutcome::Pending(vec![hash]));
}

#[test]
fn waiting_is_not_being_turned_down() {
    let waiting: ValidationOutcome<u8> = ValidationOutcome::pending_on(&RecordHash::new(vec![1]));
    assert!(!matches!(waiting, ValidationOutcome::Invalid(_)));
    assert_ne!(waiting, ValidationOutcome::Valid);
}

#[test]
fn structural_reasons_are_told_in_words() {
    assert_eq!(
        StructuralError::Fork.reason(),
        "There are two moves pointing to the same next move"
    );
    assert_eq!(
        StructuralError::DuplicateRecord.reason(),
        "There are two entries with the same hash in this list"
    );
    assert_eq!(StructuralError::NoFirstMove.reason(), "There is no first move in this list");
    assert_eq!(
        StructuralError::TwoFirstMoves.reason(),
        "There are two first moves in this list"
    );
    assert_eq!(StructuralError::MissingMoves.reason(), "There are missing moves in the list");
    assert_eq!(
        StructuralError::Cycle.reason(),
        "The moves before this move lead round in a circle"
    );
    assert_eq!(StructuralError::RepeatedPlayer.reason(), "Game contains a repeated agent");
    assert_eq!(StructuralError::BadNumberOfPlayers.reason(), "Bad number of players");
    assert_eq!(StructuralError::NoEntry.reason(), "Bad record: no entry inside");
}

#[test]
fn reasons_of_authority_are_told_in_words() {
    assert_eq!(
        AuthorizationError::NotSignedByAuthor.reason(),
        "This move is not signed by its author"
    );
    assert_eq!(
        AuthorizationError::NotAPlayer.reason(),
        "The author of the move is not playing the game"
    );
}

#[test]
fn reasons_of_protocol_are_told_in_words() {
    assert_eq!(
        ProtocolError::NotAuthorsTurn.reason(),
        "It's not the turn of the author of the move"
    );
    assert_eq!(
        ProtocolError::GameFinished.reason(),
        "Game is already finished: cannot make any more moves"
    );
    assert_eq!(ProtocolError::UndecodableMove.reason(), "Couldn't convert game move");
    assert_eq!(
        ProtocolError::PreviousMoveNotSeen.reason(),
        "Cannot make move: can't fetch the previous move hash yet"
    );
    assert_eq!(
        ProtocolError::ImmutableRecord.reason(),
        "Cannot modify or delete a game or its moves"
    );
}

#[test]
fn the_kinds_of_error_are_told_apart() {
    let structure: GameError<u8> = GameError::Structure(StructuralError::Fork);
    let protocol: GameError<u8> = GameError::Protocol(ProtocolError::GameFinished);
    let rule: GameError<u8> = GameError::Rule(7);
    assert_ne!(structure, protocol);
    assert_ne!(protocol, rule);
    assert_eq!(rule, GameError::Rule(7));
}
