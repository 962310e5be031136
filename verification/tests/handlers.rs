use hc_turn_based_game::clock::LAST_MICROSECOND;
use hc_turn_based_game::entries::{GameEntry, GameMoveEntry, MoveInfo};
use hc_turn_based_game::error::{GameError, ProtocolError, StructuralError};
use hc_turn_based_game::handlers::{
    compute_winner, create_game, create_move, decode_moves, get_game_info, get_game_moves,
    get_game_outcome, get_game_state, get_game_winner, get_moves_entries, only_moves,
    verify_we_see_previous_move_hash, MakeMoveInput,
};
use hc_turn_based_game::identity::{AgentKey, RecordHash};
use hc_turn_based_game::tictactoe::{Piece, TicTacToe, TicTacToeError, TicTacToeMove};
use hc_turn_based_game::turn_based_game::{GameStatus, TurnBasedGame};

fn alice() -> AgentKey {
    AgentKey::new(vec![1; 39])
}

fn bob() -> AgentKey {
    AgentKey::new(vec![2; 39])
}

fn game_hash() -> RecordHash {
    RecordHash::new(vec![200; 39])
}

fn hash(n: u8) -> RecordHash {
    RecordHash::new(vec![n; 39])
}

fn game() -> GameEntry {
    GameEntry { players: vec![alice(), bob()], created_at: 1_600_000_000_000 }
}

fn place(x: usize, y: usize) -> TicTacToeMove {
    TicTacToeMove::Place(Piece { x, y })
}

fn stored(id: u8, author: AgentKey, game_move: TicTacToeMove, previous: Option<u8>) -> MoveInfo {
    MoveInfo {
        header_hash: hash(id),
        game_move_entry: GameMoveEntry {
            game_hash: game_hash(),
            author_pub_key: author,
            game_move: TicTacToe::encode_move(&game_move),
            previous_move_hash: previous.map(hash),
        },
    }
}

/// A:(0,0), B:(1,1), A:(0,1), B:(1,0), A:(0,2), in the order of the chain.
fn five_moves() -> Vec<MoveInfo> {
    vec![
        stored(1, alice(), place(0, 0), None),
        stored(2, bob(), place(1, 1), Some(1)),
        stored(3, alice(), place(0, 1), Some(2)),
        stored(4, bob(), place(1, 0), Some(3)),
        stored(5, alice(), place(0, 2), Some(4)),
    ]
}

fn shuffled(moves: &[MoveInfo]) -> Vec<MoveInfo> {
    let mut moves = moves.to_vec();
    moves.reverse();
    if moves.len() > 2 {
        moves.swap(0, 2);
    }
    moves
}

fn input(previous: Option<u8>, game_move: TicTacToeMove) -> MakeMoveInput<TicTacToe> {
    MakeMoveInput {
        game_hash: game_hash(),
        previous_move_hash: previous.map(hash),
        game_move,
    }
}

#[test]
fn a_game_is_created_at_the_millisecond_of_its_time() {
    let game = create_game(vec![alice(), bob()], 1_600_000_000_123_456).unwrap();
    assert_eq!(game.players, vec![alice(), bob()]);
    assert_eq!(game.created_at, 1_600_000_000_123);
}

#[test]
fn the_time_of_creation_drops_what_is_less_than_a_millisecond() {
    assert_eq!(create_game(vec![], 0).unwrap().created_at, 0);
    assert_eq!(create_game(vec![], 999).unwrap().created_at, 0);
    assert_eq!(create_game(vec![], 1_000).unwrap().created_at, 1);
    assert_eq!(create_game(vec![], 1_999_999).unwrap().created_at, 1_999);
}

#[test]
fn a_game_can_be_created_up_to_the_end_of_the_year_9999() {
    let game = create_game(vec![alice(), bob()], LAST_MICROSECOND).unwrap();
    assert_eq!(game.created_at, 253_402_300_799_999);
}

#[test]
fn a_game_created_at_a_whole_second_before_1970_counts_backwards() {
    let game = create_game(vec![alice(), bob()], -1_000_000).unwrap();
    assert_eq!(game.created_at, -1_000);
    let game = create_game(vec![alice(), bob()], -86_400_000_000).unwrap();
    assert_eq!(game.created_at, -86_400_000);
}

#[test]
fn no_game_is_created_at_a_broken_second_before_1970() {
    assert_eq!(create_game(vec![alice(), bob()], -1), None);
    assert_eq!(create_game(vec![alice(), bob()], -1_500_000), None);
    assert_eq!(create_game(vec![alice(), bob()], -999_999), None);
}

#[test]
fn no_game_is_created_at_a_time_that_the_calendar_does_not_have() {
    assert_eq!(create_game(vec![alice(), bob()], i64::MAX), None);
    assert_eq!(create_game(vec![alice(), bob()], i64::MIN), None);
    assert_eq!(create_game(vec![alice(), bob()], 9_000_000_000_000_000_000), None);
}

#[test]
fn fetched_moves_are_put_in_order() {
    let fetched: Vec<Option<MoveInfo>> =
        shuffled(&five_moves()).into_iter().map(Some).collect();
    assert_eq!(get_moves_entries(&fetched), Ok(five_moves()));
    assert_eq!(get_moves_entries(&vec![]), Ok(vec![]));
}

#[test]
fn a_move_that_the_store_did_not_give_fails_the_fetch() {
    let mut fetched: Vec<Option<MoveInfo>> = five_moves().into_iter().map(Some).collect();
    fetched[3] = None;
    assert_eq!(get_moves_entries(&fetched), Err(StructuralError::NoEntry));
    assert_eq!(get_moves_entries(&vec![None]), Err(StructuralError::NoEntry));
}

#[test]
fn fetched_moves_that_are_no_chain_fail_the_fetch() {
    let mut moves = five_moves();
    moves[4].game_move_entry.previous_move_hash = Some(hash(2));
    let fetched: Vec<Option<MoveInfo>> = moves.into_iter().map(Some).collect();
    assert_eq!(get_moves_entries(&fetched), Err(StructuralError::Fork));
}

#[test]
fn the_moves_are_taken_from_their_hashes() {
    let moves = five_moves();
    let entries = only_moves(&moves);
    assert_eq!(entries.len(), 5);
    for (entry, info) in entries.iter().zip(moves.iter()) {
        assert_eq!(entry, &info.game_move_entry);
    }
}

#[test]
fn the_previous_move_must_be_the_latest_one() {
    let moves = five_moves();
    assert_eq!(verify_we_see_previous_move_hash(&moves, &Some(hash(5))), Ok(()));
    assert_eq!(verify_we_see_previous_move_hash(&vec![], &None), Ok(()));
    let not_seen = Err(ProtocolError::PreviousMoveNotSeen);
    assert_eq!(verify_we_see_previous_move_hash(&moves, &Some(hash(4))), not_seen);
    assert_eq!(verify_we_see_previous_move_hash(&moves, &Some(hash(6))), not_seen);
    assert_eq!(verify_we_see_previous_move_hash(&moves, &None), not_seen);
    assert_eq!(verify_we_see_previous_move_hash(&vec![], &Some(hash(1))), not_seen);
}

#[test]
fn the_state_of_a_game_does_not_depend_on_the_order_of_arrival() {
    let in_order: TicTacToe = get_game_state(&game(), &five_moves()).unwrap();
    let shuffled: TicTacToe = get_game_state(&game(), &shuffled(&five_moves())).unwrap();
    assert_eq!(in_order, shuffled);
    assert_eq!(
        in_order.pieces_1,
        vec![Piece { x: 0, y: 0 }, Piece { x: 0, y: 1 }, Piece { x: 0, y: 2 }]
    );
}

#[test]
fn the_state_of_a_broken_chain_is_not_told() {
    let mut moves = five_moves();
    moves.remove(2);
    let state: Result<TicTacToe, _> = get_game_state(&game(), &moves);
    assert_eq!(state, Err(GameError::Structure(StructuralError::MissingMoves)));
}

#[test]
fn the_first_player_wins_with_the_fifth_move() {
    let moves = five_moves();
    assert_eq!(get_game_winner::<TicTacToe>(&game(), &shuffled(&moves[..4])), Ok(None));
    assert_eq!(
        get_game_winner::<TicTacToe>(&game(), &shuffled(&moves)),
        Ok(Some(vec![alice()]))
    );
    assert_eq!(
        get_game_outcome::<TicTacToe>(&game(), &moves[..4].to_vec()),
        Ok(GameStatus::Ongoing)
    );
    assert_eq!(
        get_game_outcome::<TicTacToe>(&game(), &moves),
        Ok(GameStatus::Finished { winners: vec![alice()] })
    );
}

#[test]
fn the_winner_is_computed_from_moves_in_order() {
    let entries = only_moves(&five_moves());
    assert_eq!(compute_winner::<TicTacToe>(&game(), &entries), Ok(Some(vec![alice()])));
    assert_eq!(compute_winner::<TicTacToe>(&game(), &entries[..3].to_vec()), Ok(None));
    assert_eq!(compute_winner::<TicTacToe>(&game(), &vec![]), Ok(None));
}

#[test]
fn the_winner_of_moves_that_cannot_be_replayed_is_not_told() {
    let moves = vec![
        stored(1, alice(), place(0, 0), None),
        stored(2, bob(), place(0, 0), Some(1)),
    ];
    assert_eq!(
        get_game_winner::<TicTacToe>(&game(), &moves),
        Err(GameError::Rule(TicTacToeError::Occupied))
    );
    assert_eq!(
        get_game_outcome::<TicTacToe>(&game(), &moves),
        Err(GameError::Rule(TicTacToeError::Occupied))
    );
}

#[test]
fn a_move_is_created_after_the_latest_move() {
    let moves = five_moves();
    let created = create_move::<TicTacToe>(
        &game(),
        &shuffled(&moves[..4]),
        input(Some(4), place(2, 2)),
        alice(),
    );
    assert_eq!(
        created,
        Ok(GameMoveEntry {
            game_hash: game_hash(),
            author_pub_key: alice(),
            game_move: TicTacToe::encode_move(&place(2, 2)),
            previous_move_hash: Some(hash(4)),
        })
    );
}

#[test]
fn the_first_move_is_created_without_a_previous_one() {
    let created = create_move::<TicTacToe>(&game(), &vec![], input(None, place(1, 1)), alice());
    assert_eq!(
        created,
        Ok(GameMoveEntry {
            game_hash: game_hash(),
            author_pub_key: alice(),
            game_move: vec![0, 1, 0, 0, 0, 0, 0, 0, 0, 1, 0, 0, 0, 0, 0, 0, 0],
            previous_move_hash: None,
        })
    );
}

#[test]
fn no_move_is_created_on_a_view_that_is_behind() {
    let moves = five_moves();
    let behind = Err(GameError::Protocol(ProtocolError::PreviousMoveNotSeen));
    assert_eq!(
        create_move::<TicTacToe>(&game(), &moves[..3].to_vec(), input(Some(4), place(2, 2)), bob()),
        behind
    );
    assert_eq!(
        create_move::<TicTacToe>(&game(), &moves[..3].to_vec(), input(None, place(2, 2)), bob()),
        behind
    );
    assert_eq!(
        create_move::<TicTacToe>(&game(), &vec![], input(Some(1), place(2, 2)), bob()),
        behind
    );
}

#[test]
fn no_move_is_created_that_the_game_does_not_allow() {
    let moves = five_moves();
    assert_eq!(
        create_move::<TicTacToe>(&game(), &moves[..4].to_vec(), input(Some(4), place(1, 1)), alice()),
        Err(GameError::Rule(TicTacToeError::Occupied))
    );
    assert_eq!(
        create_move::<TicTacToe>(&game(), &moves[..4].to_vec(), input(Some(4), place(0, 3)), alice()),
        Err(GameError::Rule(TicTacToeError::OutOfBounds))
    );
}

#[test]
fn no_move_is_created_on_a_broken_chain() {
    let mut moves = five_moves();
    moves[1].game_move_entry.previous_move_hash = None;
    assert_eq!(
        create_move::<TicTacToe>(&game(), &moves, input(Some(5), place(2, 2)), bob()),
        Err(GameError::Structure(StructuralError::TwoFirstMoves))
    );
}

#[test]
fn recorded_moves_are_decoded_in_order() {
    let entries = only_moves(&five_moves());
    assert_eq!(
        decode_moves::<TicTacToe>(&entries),
        Ok(vec![place(0, 0), place(1, 1), place(0, 1), place(1, 0), place(0, 2)])
    );
    assert_eq!(decode_moves::<TicTacToe>(&vec![]), Ok(vec![]));
}

#[test]
fn one_move_that_cannot_be_decoded_fails_them_all() {
    let mut entries = only_moves(&five_moves());
    entries[2].game_move = vec![5];
    assert_eq!(decode_moves::<TicTacToe>(&entries), Err(ProtocolError::UndecodableMove));
}

#[test]
fn the_moves_of_a_game_are_ordered_and_decoded() {
    assert_eq!(
        get_game_moves::<TicTacToe>(&shuffled(&five_moves())),
        Ok(vec![place(0, 0), place(1, 1), place(0, 1), place(1, 0), place(0, 2)])
    );
    let mut moves = five_moves();
    moves[0].game_move_entry.game_move = vec![];
    assert_eq!(
        get_game_moves::<TicTacToe>(&moves),
        Err(GameError::Protocol(ProtocolError::UndecodableMove))
    );
    moves[0].header_hash = hash(2);
    assert_eq!(
        get_game_moves::<TicTacToe>(&moves),
        Err(GameError::Structure(StructuralError::DuplicateRecord))
    );
}

#[test]
fn all_that_is_known_of_a_game_is_gathered() {
    let info = match get_game_info::<TicTacToe>(&game(), &shuffled(&five_moves())) {
        Ok(info) => info,
        Err(e) => panic!("no info: {:?}", e),
    };
    assert_eq!(info.game_entry, game());
    assert_eq!(info.moves, five_moves());
    assert_eq!(
        info.game_moves,
        vec![place(0, 0), place(1, 1), place(0, 1), place(1, 0), place(0, 2)]
    );
    assert_eq!(info.game_state.winner(), Some(alice()));
}

#[test]
fn nothing_is_gathered_of_a_game_with_a_fork() {
    let mut moves = five_moves();
    moves[4].game_move_entry.previous_move_hash = Some(hash(1));
    match get_game_info::<TicTacToe>(&game(), &moves) {
        Ok(_) => panic!("a fork was accepted"),
        Err(e) => assert_eq!(e, GameError::Structure(StructuralError::Fork)),
    }
}
