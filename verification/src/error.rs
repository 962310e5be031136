//! Why a record is turned down, and the three-way outcome of a validation.

use vstd::prelude::*;
use crate::identity::RecordHash;

verus! {

/// The records do not have the shape that a game's history must have.
#[derive(Clone, Copy, Debug, PartialEq, Eq)]
pub enum StructuralError {
    /// Two moves name the same previous move.
    Fork,
    /// Two moves are held under the same hash.
    DuplicateRecord,
    /// Every move names a previous move, so none can be the first.
    NoFirstMove,
    /// More than one move names no previous move.
    TwoFirstMoves,
    /// Starting at the first move, some moves are never reached.
    MissingMoves,
    /// Going back from move to previous move never comes to a first move.
    Cycle,
    /// A player is listed twice in a game.
    RepeatedPlayer,
    /// The game has fewer or more players than its rules allow.
    BadNumberOfPlayers,
    /// A record that should be there has no content.
    NoEntry,
}

/// The record does not come from someone entitled to it.
#[derive(Clone, Copy, Debug, PartialEq, Eq)]
pub enum AuthorizationError {
    /// The author named in the move is not the one who signed it.
    NotSignedByAuthor,
    /// The author of the move is not a player of the game.
    NotAPlayer,
}

/// The record breaks the rules that hold for every game.
#[derive(Clone, Copy, Debug, PartialEq, Eq)]
pub enum ProtocolError {
    /// The move comes from a player other than the one whose turn it is.
    NotAuthorsTurn,
    /// The move comes after the game has ended.
    GameFinished,
    /// The bytes of the move are not a move of this game.
    UndecodableMove,
    /// The move that is to be followed is not the latest one known.
    PreviousMoveNotSeen,
    /// Games and moves are never changed or removed.
    ImmutableRecord,
}

/// Every reason for which the engine turns something down. `E` is what the
/// game itself says of an illegal move, handed on as it is.
#[derive(Clone, Copy, Debug, PartialEq, Eq)]
pub enum GameError<E> {
    Structure(StructuralError),
    Authorization(AuthorizationError),
    Protocol(ProtocolError),
    Rule(E),
}

/// What a validation says of a record.
///
/// `Pending` is not a failure: it names records that are not visible yet,
/// and the validation is to be run again once they are.
#[derive(Clone, Debug, PartialEq, Eq)]
pub enum ValidationOutcome<E> {
    Valid,
    Invalid(GameError<E>),
    Pending(Vec<RecordHash>),
}

/// A [`ValidationOutcome`] as mathematical values.
pub enum OutcomeView<E> {
    Valid,
    Invalid(GameError<E>),
    Pending(Seq<Seq<u8>>),
}

impl<E> DeepView for ValidationOutcome<E> {
    type V = OutcomeView<E>;

    open spec fn deep_view(&self) -> OutcomeView<E> {
        match self {
            ValidationOutcome::Valid => OutcomeView::Valid,
            ValidationOutcome::Invalid(e) => OutcomeView::Invalid(*e),
            ValidationOutcome::Pending(hashes) => OutcomeView::Pending(hashes.deep_view()),
        }
    }
}

impl<E> View for ValidationOutcome<E> {
    type V = OutcomeView<E>;

    open spec fn view(&self) -> OutcomeView<E> {
        self.deep_view()
    }
}

impl<E> ValidationOutcome<E> {
    /// The outcome that waits for one record.
    pub fn pending_on(hash: &RecordHash) -> (outcome: ValidationOutcome<E>)
        ensures
            outcome@ == OutcomeView::<E>::Pending(seq![hash@]),
    {
        let mut hashes: Vec<RecordHash> = Vec::new();
        hashes.push(hash.duplicate());
        assert(hashes.deep_view() =~= seq![hash@]);
        ValidationOutcome::Pending(hashes)
    }
}

impl StructuralError {
    /// The reason in words.
    pub open spec fn reason_spec(self) -> Seq<char> {
        match self {
            StructuralError::Fork => "There are two moves pointing to the same next move"@,
            StructuralError::DuplicateRecord =>
                "There are two entries with the same hash in this list"@,
            StructuralError::NoFirstMove => "There is no first move in this list"@,
            StructuralError::TwoFirstMoves => "There are two first moves in this list"@,
            StructuralError::MissingMoves => "There are missing moves in the list"@,
            StructuralError::Cycle => "The moves before this move lead round in a circle"@,
            StructuralError::RepeatedPlayer => "Game contains a repeated agent"@,
            StructuralError::BadNumberOfPlayers => "Bad number of players"@,
            StructuralError::NoEntry => "Bad record: no entry inside"@,
        }
    }

    /// The reason in words, for the one whose record was turned down.
    pub fn reason(&self) -> (text: &'static str)
        ensures
            text@ == self.reason_spec(),
    {
        match self {
            StructuralError::Fork => "There are two moves pointing to the same next move",
            StructuralError::DuplicateRecord =>
                "There are two entries with the same hash in this list",
            StructuralError::NoFirstMove => "There is no first move in this list",
            StructuralError::TwoFirstMoves => "There are two first moves in this list",
            StructuralError::MissingMoves => "There are missing moves in the list",
            StructuralError::Cycle => "The moves before this move lead round in a circle",
            StructuralError::RepeatedPlayer => "Game contains a repeated agent",
            StructuralError::BadNumberOfPlayers => "Bad number of players",
            StructuralError::NoEntry => "Bad record: no entry inside",
        }
    }
}

impl AuthorizationError {
    /// The reason in words.
    pub open spec fn reason_spec(self) -> Seq<char> {
        match self {
            AuthorizationError::NotSignedByAuthor => "This move is not signed by its author"@,
            AuthorizationError::NotAPlayer => "The author of the move is not playing the game"@,
        }
    }

    /// The reason in words, for the one whose record was turned down.
    pub fn reason(&self) -> (text: &'static str)
        ensures
            text@ == self.reason_spec(),
    {
        match self {
            AuthorizationError::NotSignedByAuthor => "This move is not signed by its author",
            AuthorizationError::NotAPlayer => "The author of the move is not playing the game",
        }
    }
}

impl ProtocolError {
    /// The reason in words.
    pub open spec fn reason_spec(self) -> Seq<char> {
        match self {
            ProtocolError::NotAuthorsTurn => "It's not the turn of the author of the move"@,
            ProtocolError::GameFinished =>
                "Game is already finished: cannot make any more moves"@,
            ProtocolError::UndecodableMove => "Couldn't convert game move"@,
            ProtocolError::PreviousMoveNotSeen =>
                "Cannot make move: can't fetch the previous move hash yet"@,
            ProtocolError::ImmutableRecord => "Cannot modify or delete a game or its moves"@,
        }
    }

    /// The reason in words, for the one whose record was turned down.
    pub fn reason(&self) -> (text: &'static str)
        ensures
            text@ == self.reason_spec(),
    {
        match self {
            ProtocolError::NotAuthorsTurn => "It's not the turn of the author of the move",
            ProtocolError::GameFinished => "Game is already finished: cannot make any more moves",
            ProtocolError::UndecodableMove => "Couldn't convert game move",
            ProtocolError::PreviousMoveNotSeen =>
                "Cannot make move: can't fetch the previous move hash yet",
            ProtocolError::ImmutableRecord => "Cannot modify or delete a game or its moves",
        }
    }
}

} // verus!
