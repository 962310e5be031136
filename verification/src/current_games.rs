//! The games that a player has in progress.
//!
//! Each player keeps pointers to the games that they are playing. The
//! pointers are a convenience: they are set when a game starts and taken away
//! when a player is done with it, and nothing in the validation of games and
//! moves depends on them.

use vstd::prelude::*;
use crate::entries::GameEntry;
use crate::entries::GameEntryView;
use crate::identity::first_position;
use crate::identity::is_first_position;
use crate::identity::lemma_first_position_is_unique;
use crate::identity::RecordHash;

verus! {

/// A pointer from a player to a game: the game it points to, and the hash
/// of the record that set it, by which it is taken away again.
#[derive(Clone, Debug, PartialEq, Eq)]
pub struct GameLink {
    pub target: RecordHash,
    pub create_link_hash: RecordHash,
}

/// A [`GameLink`] as mathematical values.
pub struct GameLinkView {
    pub target: Seq<u8>,
    pub create_link_hash: Seq<u8>,
}

impl DeepView for GameLink {
    type V = GameLinkView;

    open spec fn deep_view(&self) -> GameLinkView {
        GameLinkView { target: self.target@, create_link_hash: self.create_link_hash@ }
    }
}

impl View for GameLink {
    type V = GameLinkView;

    open spec fn view(&self) -> GameLinkView {
        self.deep_view()
    }
}

/// The games that the pointers point to.
pub open spec fn targets_of(links: Seq<GameLinkView>) -> Seq<Seq<u8>> {
    links.map_values(|link: GameLinkView| link.target)
}

/// The pointer to take away so that the player no longer has the game among
/// those in progress: the first that points to the game, named by the hash
/// of the record that set it. None where no pointer points to the game.
pub fn link_to_delete(links: &Vec<GameLink>, game_hash: &RecordHash) -> (link: Option<RecordHash>)
    ensures
        link.deep_view() == (match first_position(targets_of(links.deep_view()), game_hash@) {
            Some(i) => Some(links.deep_view()[i].create_link_hash),
            None => None,
        }),
{
    let ghost targets = targets_of(links.deep_view());
    let mut i: usize = 0;
    while i < links.len()
        invariant
            i <= links.len(),
            targets == targets_of(links.deep_view()),
            forall|j: int| 0 <= j < i ==> targets[j] != game_hash@,
        decreases links.len() - i,
    {
        if links[i].target.same_as(game_hash) {
            proof {
                assert(is_first_position(targets, game_hash@, i as int));
                lemma_first_position_is_unique(targets, game_hash@, i as int);
            }
            return Some(links[i].create_link_hash.duplicate());
        }
        i += 1;
    }
    proof {
        if first_position(targets, game_hash@) is Some {
            let k = choose|k: int| is_first_position(targets, game_hash@, k);
            assert(targets[k] == game_hash@);
        }
    }
    None
}

/// What came back when another player was asked to take a game from their
/// games in progress.
#[derive(Clone, Copy, Debug, PartialEq, Eq)]
pub enum NotifyReply {
    /// The player got the request.
    Delivered,
    /// The request could not be shown to come from its sender.
    AuthenticationFailed,
    /// The player does not take such requests from the sender.
    Unauthorized,
    /// The player could not be reached.
    NetworkError,
    /// The player is held up in a countersigning session.
    CountersigningSession,
}

/// Whether the one who asked takes the pointer away in the other player's
/// place: whenever the request did not get through.
pub fn removes_on_behalf(reply: NotifyReply) -> (remove: bool)
    ensures
        remove == !(reply is Delivered),
{
    match reply {
        NotifyReply::Delivered => false,
        _ => true,
    }
}

/// A game in progress, under its hash.
#[derive(Clone, Debug, PartialEq, Eq)]
pub struct CurrentGame {
    pub game_hash: RecordHash,
    pub game_entry: GameEntry,
}

/// A [`CurrentGame`] as mathematical values.
pub struct CurrentGameView {
    pub game_hash: Seq<u8>,
    pub game_entry: GameEntryView,
}

impl DeepView for CurrentGame {
    type V = CurrentGameView;

    open spec fn deep_view(&self) -> CurrentGameView {
        CurrentGameView { game_hash: self.game_hash@, game_entry: self.game_entry@ }
    }
}

impl View for CurrentGame {
    type V = CurrentGameView;

    open spec fn view(&self) -> CurrentGameView {
        self.deep_view()
    }
}

/// The hashes of the games.
pub open spec fn game_hashes_of(games: Seq<CurrentGameView>) -> Seq<Seq<u8>> {
    games.map_values(|game: CurrentGameView| game.game_hash)
}

/// The games with `game` among them: in place of the game that is already
/// held under its hash, or, where there is none, after the others.
pub open spec fn with_game(games: Seq<CurrentGameView>, game: CurrentGameView) -> Seq<
    CurrentGameView,
> {
    match first_position(game_hashes_of(games), game.game_hash) {
        Some(i) => games.update(i, game),
        None => games.push(game),
    }
}

/// The games in progress that the store gave, each hash once: a game that
/// the store did not give is left out, and of two games under one hash the
/// later one stays.
pub open spec fn games_in_progress(fetched: Seq<Option<CurrentGame>>) -> Seq<CurrentGameView>
    decreases fetched.len(),
{
    if fetched.len() == 0 {
        Seq::empty()
    } else {
        let earlier = games_in_progress(fetched.drop_last());
        match fetched.last() {
            Some(game) => with_game(earlier, game@),
            None => earlier,
        }
    }
}

/// No hash occurs twice.
pub open spec fn distinct(hashes: Seq<Seq<u8>>) -> bool {
    forall|i: int, j: int| 0 <= i < j < hashes.len() ==> #[trigger] hashes[i] != #[trigger] hashes[j]
}

/// Putting a game among games that each have a hash of their own leaves it
/// so.
pub proof fn lemma_with_game_keeps_distinct(games: Seq<CurrentGameView>, game: CurrentGameView)
    requires
        distinct(game_hashes_of(games)),
    ensures
        distinct(game_hashes_of(with_game(games, game))),
{
    let hashes = game_hashes_of(games);
    let after = game_hashes_of(with_game(games, game));
    match first_position(hashes, game.game_hash) {
        Some(i) => {
            assert(is_first_position(hashes, game.game_hash, i));
            assert(after =~= hashes);
        },
        None => {
            assert(after =~= hashes.push(game.game_hash));
            assert forall|k: int| 0 <= k < hashes.len() implies hashes[k] != game.game_hash by {
                if hashes[k] == game.game_hash {
                    lemma_some_position_has_first(hashes, game.game_hash, k);
                }
            }
        },
    }
}

/// A key that a list holds has a first position in it.
pub proof fn lemma_some_position_has_first(keys: Seq<Seq<u8>>, key: Seq<u8>, k: int)
    requires
        0 <= k < keys.len(),
        keys[k] == key,
    ensures
        first_position(keys, key) is Some,
    decreases k,
{
    if exists|j: int| 0 <= j < k && keys[j] == key {
        let j = choose|j: int| 0 <= j < k && keys[j] == key;
        lemma_some_position_has_first(keys, key, j);
    } else {
        assert(is_first_position(keys, key, k));
    }
}

/// Among the games in progress no hash occurs twice.
pub proof fn lemma_games_in_progress_are_distinct(fetched: Seq<Option<CurrentGame>>)
    ensures
        distinct(game_hashes_of(games_in_progress(fetched))),
    decreases fetched.len(),
{
    if fetched.len() > 0 {
        lemma_games_in_progress_are_distinct(fetched.drop_last());
        if let Some(game) = fetched.last() {
            lemma_with_game_keeps_distinct(games_in_progress(fetched.drop_last()), game@);
        }
    }
}

fn find_game(games: &Vec<CurrentGame>, game_hash: &RecordHash) -> (position: Option<usize>)
    ensures
        match position {
            Some(i) => i < games.len() && first_position(
                game_hashes_of(games.deep_view()),
                game_hash@,
            ) == Some(i as int),
            None => first_position(game_hashes_of(games.deep_view()), game_hash@) is None,
        },
{
    let ghost hashes = game_hashes_of(games.deep_view());
    let mut i: usize = 0;
    while i < games.len()
        invariant
            i <= games.len(),
            hashes == game_hashes_of(games.deep_view()),
            forall|j: int| 0 <= j < i ==> hashes[j] != game_hash@,
        decreases games.len() - i,
    {
        if games[i].game_hash.same_as(game_hash) {
            proof {
                assert(is_first_position(hashes, game_hash@, i as int));
                lemma_first_position_is_unique(hashes, game_hash@, i as int);
            }
            return Some(i);
        }
        i += 1;
    }
    proof {
        if first_position(hashes, game_hash@) is Some {
            let k = choose|k: int| is_first_position(hashes, game_hash@, k);
            assert(hashes[k] == game_hash@);
        }
    }
    None
}

/// Gathers the games that a player has in progress from what the store gave
/// for each of the player's pointers, each game once.
pub fn get_current_games_for(fetched: &Vec<Option<CurrentGame>>) -> (current_games: Vec<CurrentGame>)
    ensures
        current_games.deep_view() == games_in_progress(fetched@),
        distinct(game_hashes_of(current_games.deep_view())),
{
    let mut current_games: Vec<CurrentGame> = Vec::new();
    let mut i: usize = 0;
    assert(current_games.deep_view() =~= games_in_progress(fetched@.take(0)));
    while i < fetched.len()
        invariant
            i <= fetched.len(),
            current_games.deep_view() == games_in_progress(fetched@.take(i as int)),
        decreases fetched.len() - i,
    {
        proof {
            assert(fetched@.take(i + 1).drop_last() =~= fetched@.take(i as int));
            assert(fetched@.take(i + 1).last() == fetched@[i as int]);
        }
        let ghost before = current_games.deep_view();
        match &fetched[i] {
            Some(game) => {
                let copy = CurrentGame {
                    game_hash: game.game_hash.duplicate(),
                    game_entry: game.game_entry.duplicate(),
                };
                match find_game(&current_games, &game.game_hash) {
                    Some(at) => {
                        current_games[at] = copy;
                        assert(current_games.deep_view() =~= before.update(at as int, game@));
                    },
                    None => {
                        current_games.push(copy);
                        assert(current_games.deep_view() =~= before.push(game@));
                    },
                }
            },
            None => {},
        }
        i += 1;
    }
    proof {
        assert(fetched@.take(fetched.len() as int) =~= fetched@);
        lemma_games_in_progress_are_distinct(fetched@);
    }
    current_games
}

} // verus!
