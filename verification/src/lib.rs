//! Deterministic, peer-validated turn-based games over a content-addressed,
//! append-only record store.
//!
//! A game is a record that lists its players. Its history is a chain of move
//! records, each naming the move before it. Every peer that sees a record
//! rebuilds the chain, replays it through the rules of the game and
//! validates the record on its own; since each step is a function of the
//! records alone, all peers come to the same state and the same verdict.
//!
//! The rules of a game are given by an implementation of
//! [`TurnBasedGame`]; [`tictactoe`] holds one.

pub mod chain;
pub mod clock;
pub mod current_games;
pub mod entries;
pub mod error;
pub mod game;
pub mod game_move;
pub mod handlers;
pub mod history;
pub mod identity;
pub mod replay;
pub mod signal;
pub mod tictactoe;
pub mod turn;
pub mod turn_based_game;

pub use chain::order_moves;
pub use current_games::get_current_games_for;
pub use entries::GameEntry;
pub use entries::GameMoveEntry;
pub use entries::MoveInfo;
pub use error::GameError;
pub use error::ValidationOutcome;
pub use game::validate_game_entry;
pub use game_move::validate_game_move_entry;
pub use handlers::create_game;
pub use handlers::create_move;
pub use handlers::get_game_info;
pub use handlers::get_game_moves;
pub use handlers::get_game_outcome;
pub use handlers::get_game_state;
pub use handlers::get_game_winner;
pub use handlers::get_moves_entries;
pub use handlers::MakeMoveInput;
pub use identity::AgentKey;
pub use identity::RecordHash;
pub use replay::build_game_state;
pub use signal::SignalPayload;
pub use turn_based_game::GameStatus;
pub use turn_based_game::TurnBasedGame;
