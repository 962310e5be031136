//! The two kinds of record that make up a game: the game itself and its moves.

use vstd::prelude::*;
use crate::identity::AgentKey;
use crate::identity::RecordHash;
use crate::identity::duplicate_bytes;
use crate::identity::duplicate_keys;
use crate::identity::duplicate_optional_hash;

verus! {

/// A game: who plays it, in turn order, and when it was created.
///
/// The record is immutable once created; the players' order is the turn order
/// for the whole game.
#[derive(Clone, Debug, PartialEq, Eq)]
pub struct GameEntry {
    pub players: Vec<AgentKey>,
    /// Milliseconds since 1970-01-01T00:00:00Z.
    pub created_at: i64,
}

/// What a [`GameEntry`] says, as mathematical values.
pub struct GameEntryView {
    pub players: Seq<Seq<u8>>,
    pub created_at: i64,
}

impl DeepView for GameEntry {
    type V = GameEntryView;

    open spec fn deep_view(&self) -> GameEntryView {
        GameEntryView { players: self.players.deep_view(), created_at: self.created_at }
    }
}

impl View for GameEntry {
    type V = GameEntryView;

    open spec fn view(&self) -> GameEntryView {
        self.deep_view()
    }
}

impl GameEntry {
    /// A copy of the record.
    pub fn duplicate(&self) -> (copy: GameEntry)
        ensures
            copy@ == self@,
    {
        GameEntry { players: duplicate_keys(&self.players), created_at: self.created_at }
    }
}

/// One move of one player.
///
/// `game_move` is the move itself in the byte layout of the game that is
/// played; the engine hands it to that game's codec and never reads it.
/// `previous_move_hash` names the move that this one follows, and is absent
/// only on the first move of a game.
#[derive(Clone, Debug, PartialEq, Eq)]
pub struct GameMoveEntry {
    pub game_hash: RecordHash,
    pub author_pub_key: AgentKey,
    pub game_move: Vec<u8>,
    pub previous_move_hash: Option<RecordHash>,
}

/// What a [`GameMoveEntry`] says, as mathematical values.
pub struct GameMoveView {
    pub game_hash: Seq<u8>,
    pub author: Seq<u8>,
    pub game_move: Seq<u8>,
    pub previous_move_hash: Option<Seq<u8>>,
}

impl DeepView for GameMoveEntry {
    type V = GameMoveView;

    open spec fn deep_view(&self) -> GameMoveView {
        GameMoveView {
            game_hash: self.game_hash@,
            author: self.author_pub_key@,
            game_move: self.game_move@,
            previous_move_hash: self.previous_move_hash.deep_view(),
        }
    }
}

impl View for GameMoveEntry {
    type V = GameMoveView;

    open spec fn view(&self) -> GameMoveView {
        self.deep_view()
    }
}

impl GameMoveEntry {
    /// A copy of the record.
    pub fn duplicate(&self) -> (copy: GameMoveEntry)
        ensures
            copy@ == self@,
    {
        GameMoveEntry {
            game_hash: self.game_hash.duplicate(),
            author_pub_key: self.author_pub_key.duplicate(),
            game_move: duplicate_bytes(&self.game_move),
            previous_move_hash: duplicate_optional_hash(&self.previous_move_hash),
        }
    }
}

/// A move together with the hash under which the store holds it.
#[derive(Clone, Debug, PartialEq, Eq)]
pub struct MoveInfo {
    pub header_hash: RecordHash,
    pub game_move_entry: GameMoveEntry,
}

/// What a [`MoveInfo`] says, as mathematical values.
pub struct MoveInfoView {
    pub header_hash: Seq<u8>,
    pub game_move_entry: GameMoveView,
}

impl DeepView for MoveInfo {
    type V = MoveInfoView;

    open spec fn deep_view(&self) -> MoveInfoView {
        MoveInfoView {
            header_hash: self.header_hash@,
            game_move_entry: self.game_move_entry@,
        }
    }
}

impl View for MoveInfo {
    type V = MoveInfoView;

    open spec fn view(&self) -> MoveInfoView {
        self.deep_view()
    }
}

impl MoveInfo {
    /// A copy of the move and its hash.
    pub fn duplicate(&self) -> (copy: MoveInfo)
        ensures
            copy@ == self@,
    {
        MoveInfo {
            header_hash: self.header_hash.duplicate(),
            game_move_entry: self.game_move_entry.duplicate(),
        }
    }
}

/// The moves of a list of [`MoveInfo`], without their hashes.
pub open spec fn entries_of(moves: Seq<MoveInfoView>) -> Seq<GameMoveView> {
    moves.map_values(|m: MoveInfoView| m.game_move_entry)
}

} // verus!
