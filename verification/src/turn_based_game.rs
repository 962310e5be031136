//! What a game has to provide so that the engine can run it.

use vstd::prelude::*;
use crate::identity::AgentKey;

verus! {

/// Whether a game is still being played.
#[derive(Clone, Debug, PartialEq, Eq)]
pub enum GameStatus {
    /// The game has ended, in favour of `winners`.
    Finished { winners: Vec<AgentKey> },
    Ongoing,
}

/// A [`GameStatus`] as mathematical values.
pub enum GameStatusView {
    Finished { winners: Seq<Seq<u8>> },
    Ongoing,
}

impl DeepView for GameStatus {
    type V = GameStatusView;

    open spec fn deep_view(&self) -> GameStatusView {
        match self {
            GameStatus::Finished { winners } => GameStatusView::Finished {
                winners: winners.deep_view(),
            },
            GameStatus::Ongoing => GameStatusView::Ongoing,
        }
    }
}

impl View for GameStatus {
    type V = GameStatusView;

    open spec fn view(&self) -> GameStatusView {
        self.deep_view()
    }
}

/// The rules of one game.
///
/// A value of the implementing type is a state of that game; its view is
/// the state as mathematical values. Each rule is given twice: as a spec
/// function, which says what the rule is, and as the executable function
/// that computes it. Since every result is a function of the arguments alone,
/// every peer that replays the same moves reaches the same state.
pub trait TurnBasedGame: Sized + View {
    /// A move of this game.
    type GameMove;

    /// What this game says of a move that its rules do not allow.
    type RuleError;

    /// The least number of players, if there is one.
    spec fn min_players_spec() -> Option<usize>;

    /// The greatest number of players, if there is one.
    spec fn max_players_spec() -> Option<usize>;

    /// The state before the first move.
    spec fn initial_spec(players: Seq<Seq<u8>>) -> Self::V;

    /// The move that the bytes stand for, if they stand for one.
    spec fn decode_spec(bytes: Seq<u8>) -> Option<Self::GameMove>;

    /// The bytes that stand for the move.
    spec fn encode_spec(game_move: Self::GameMove) -> Seq<u8>;

    /// The state after `author` has made the move, or why the move is not
    /// allowed.
    spec fn apply_move_spec(
        state: Self::V,
        game_move: Self::GameMove,
        author: Seq<u8>,
        players: Seq<Seq<u8>>,
    ) -> Result<Self::V, Self::RuleError>;

    /// Whether the game has ended in this state, and in whose favour.
    spec fn status_spec(state: Self::V) -> GameStatusView;

    /// Decoding gives back the move that was encoded.
    proof fn lemma_codec_round_trip(game_move: Self::GameMove)
        ensures
            Self::decode_spec(Self::encode_spec(game_move)) == Some(game_move),
    ;

    fn min_players() -> (min: Option<usize>)
        ensures
            min == Self::min_players_spec(),
    ;

    fn max_players() -> (max: Option<usize>)
        ensures
            max == Self::max_players_spec(),
    ;

    fn initial(players: &Vec<AgentKey>) -> (state: Self)
        requires
            Self::min_players_spec() matches Some(min) ==> players.len() >= min,
            Self::max_players_spec() matches Some(max) ==> players.len() <= max,
        ensures
            state@ == Self::initial_spec(players.deep_view()),
    ;

    fn decode_move(bytes: &Vec<u8>) -> (game_move: Option<Self::GameMove>)
        ensures
            game_move == Self::decode_spec(bytes@),
    ;

    fn encode_move(game_move: &Self::GameMove) -> (bytes: Vec<u8>)
        ensures
            bytes@ == Self::encode_spec(*game_move),
    ;

    fn apply_move(
        self,
        game_move: Self::GameMove,
        author: &AgentKey,
        players: &Vec<AgentKey>,
    ) -> (next: Result<Self, Self::RuleError>)
        ensures
            match next {
                Ok(state) => Self::apply_move_spec(self@, game_move, author@, players.deep_view())
                    == Ok::<Self::V, Self::RuleError>(state@),
                Err(e) => Self::apply_move_spec(self@, game_move, author@, players.deep_view())
                    == Err::<Self::V, Self::RuleError>(e),
            },
    ;

    fn status(&self) -> (status: GameStatus)
        ensures
            status@ == Self::status_spec(self@),
    ;
}

/// The game can be played by this many players.
pub open spec fn allows_player_count<G: TurnBasedGame>(count: nat) -> bool {
    &&& G::min_players_spec() matches Some(min) ==> count >= min
    &&& G::max_players_spec() matches Some(max) ==> count <= max
}

/// Whether the game can be played by this many players.
pub fn player_count_allowed<G: TurnBasedGame>(count: usize) -> (allowed: bool)
    ensures
        allowed == allows_player_count::<G>(count as nat),
{
    if let Some(min) = G::min_players() {
        if count < min {
            return false;
        }
    }
    if let Some(max) = G::max_players() {
        if count > max {
            return false;
        }
    }
    true
}

} // verus!
