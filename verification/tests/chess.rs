use chessbot::board::Table;
use chessbot::engine::{rank_moves, start_turn, Probe, Selection, TurnStart};
use chessbot::errors::BotError;
use chessbot::piece::{opposite, Piece, PieceKind, PlayerColor};
use chessbot::position::{Move, Position};
use chessbot::session::{Game, GameStatus, SessionState};

fn empty_board() -> Table {
    let mut t = Table::default();
    for x in 1..9i64 {
        for y in 1..9i64 {
            t.set_piece_at(Position(x, y), Piece::Empty);
        }
    }
    t
}

fn mv(s: &str) -> Move {
    Move::from_str(s).unwrap()
}

#[test]
fn default_board_squares() {
    let t = Table::default();
    assert_eq!(
        t.get_piece_at(Position(5, 1)),
        Piece::Of(PlayerColor::White, PieceKind::King)
    );
    assert_eq!(
        t.get_piece_at(Position(4, 8)),
        Piece::Of(PlayerColor::Black, PieceKind::Queen)
    );
    assert_eq!(
        t.get_piece_at(Position(1, 2)),
        Piece::Of(PlayerColor::White, PieceKind::Pawn)
    );
    assert_eq!(t.get_piece_at(Position(4, 4)), Piece::Empty);
    assert_eq!(t.pieces().len(), 32);
}

#[test]
fn set_then_get_round_trip() {
    let mut t = empty_board();
    for x in 1..9i64 {
        for y in 1..9i64 {
            let p = Position(x, y);
            t.set_piece_at(p, Piece::Of(PlayerColor::Black, PieceKind::Bishop));
            assert_eq!(
                t.get_piece_at(p),
                Piece::Of(PlayerColor::Black, PieceKind::Bishop)
            );
            t.set_piece_at(p, Piece::Empty);
            assert_eq!(t.get_piece_at(p), Piece::Empty);
        }
    }
}

#[test]
fn position_parsing() {
    assert_eq!(Position::from_str("e2"), Ok(Position(5, 2)));
    assert_eq!(Position::from_str("a1"), Ok(Position(1, 1)));
    assert_eq!(Position::from_str("h8"), Ok(Position(8, 8)));
    assert_eq!(Position::from_str("i1"), Err(BotError::MalformedEvent));
    assert_eq!(Position::from_str("a9"), Err(BotError::MalformedEvent));
    assert_eq!(Position::from_str("a"), Err(BotError::MalformedEvent));
}

#[test]
fn move_parsing_and_text() {
    let m = mv("e2e4");
    assert_eq!(m, Move::new(Position(5, 2), Position(5, 4)));
    assert_eq!(m.text(), "e2e4");
    assert_eq!(Move::from_str("e2e"), Err(BotError::MalformedEvent));
    assert_eq!(Move::from_str("e2x4"), Err(BotError::MalformedEvent));
}

#[test]
fn initial_fen() {
    let t = Table::default();
    assert_eq!(
        t.fen(PlayerColor::White),
        "rnbqkbnr/pppppppp/8/8/8/8/PPPPPPPP/RNBQKBNR w - - 0 1"
    );
    assert_eq!(
        t.fen(PlayerColor::Black),
        "rnbqkbnr/pppppppp/8/8/8/8/PPPPPPPP/RNBQKBNR b - - 0 1"
    );
}

#[test]
fn sync_empty_reproduces_initial_setup() {
    let mut t = Table::default();
    t.sync(&Vec::new());
    let fresh = Table::default();
    assert!(t.boards_equal(&fresh));
}

#[test]
fn sync_replays_history() {
    let mut t = Table::default();
    t.sync(&vec![mv("e2e4"), mv("e7e5")]);
    assert_eq!(
        t.get_piece_at(Position(5, 4)),
        Piece::Of(PlayerColor::White, PieceKind::Pawn)
    );
    assert_eq!(
        t.get_piece_at(Position(5, 5)),
        Piece::Of(PlayerColor::Black, PieceKind::Pawn)
    );
    assert_eq!(t.get_piece_at(Position(5, 2)), Piece::Empty);
    assert_eq!(t.get_piece_at(Position(5, 7)), Piece::Empty);
}

#[test]
fn pawn_double_push_only_from_start_rank() {
    let t = Table::default();
    assert!(t.is_move_legal(&mv("e2e4")));
    assert!(t.is_move_legal(&mv("e7e5")));
    let mut t2 = Table::default();
    t2.process_move(mv("e2e3"));
    assert!(!t2.is_move_legal(&mv("e3e5")));
    let mut t3 = Table::default();
    t3.process_move(mv("e7e6"));
    assert!(!t3.is_move_legal(&mv("e6e4")));
}

#[test]
fn pawn_double_push_needs_empty_target() {
    // an opposing piece on the push's target square blocks the double push:
    // a pawn cannot capture straight forward
    let mut t = Table::default();
    t.set_piece_at(Position(5, 4), Piece::Of(PlayerColor::Black, PieceKind::Knight));
    assert!(!t.is_move_legal(&mv("e2e4")));
    assert!(t.is_move_legal(&mv("e2e3")));
    // symmetric for Black
    let mut t = Table::default();
    t.set_piece_at(Position(5, 5), Piece::Of(PlayerColor::White, PieceKind::Knight));
    assert!(!t.is_move_legal(&mv("e7e5")));
    assert!(t.is_move_legal(&mv("e7e6")));
    // a piece on the pushed-over square blocks it too
    let mut t = Table::default();
    t.set_piece_at(Position(5, 3), Piece::Of(PlayerColor::Black, PieceKind::Knight));
    assert!(!t.is_move_legal(&mv("e2e4")));
}

#[test]
fn legality_basics() {
    let t = Table::default();
    // knights jump over the pawn rank
    assert!(t.is_move_legal(&mv("g1f3")));
    // a rook cannot slide through its own pawn
    assert!(!t.is_move_legal(&mv("a1a5")));
    // the destination may not hold a same-colored piece
    assert!(!t.is_move_legal(&mv("a1a2")));
    // an empty source square moves nothing
    assert!(!t.is_move_legal(&mv("a4a5")));
    // the generic king rule caps the step at one square, so the fixed
    // castling king move fails the filter
    assert!(!t.is_move_legal(&mv("e1c1")));
}

#[test]
fn pawn_diagonal_needs_occupied_target() {
    let mut t = Table::default();
    assert!(!t.is_move_legal(&mv("e2d3")));
    t.set_piece_at(Position(4, 3), Piece::Of(PlayerColor::Black, PieceKind::Pawn));
    assert!(t.is_move_legal(&mv("e2d3")));
}

#[test]
fn castling_apply_all_four_corners() {
    // White, queen-side: e1-c1 carries the a1 rook to d1.
    let mut t = Table::default();
    for sqr in ["b1", "c1", "d1"] {
        t.set_piece_at(Position::from_str(sqr).unwrap(), Piece::Empty);
    }
    t.process_move(mv("e1c1"));
    assert_eq!(
        t.get_piece_at(Position(4, 1)),
        Piece::Of(PlayerColor::White, PieceKind::Rook)
    );
    assert_eq!(t.get_piece_at(Position(1, 1)), Piece::Empty);
    assert_eq!(
        t.get_piece_at(Position(3, 1)),
        Piece::Of(PlayerColor::White, PieceKind::King)
    );
    assert_eq!(t.get_piece_at(Position(5, 1)), Piece::Empty);

    // White, king-side: e1-g1 carries the h1 rook to f1.
    let mut t = Table::default();
    for sqr in ["f1", "g1"] {
        t.set_piece_at(Position::from_str(sqr).unwrap(), Piece::Empty);
    }
    t.process_move(mv("e1g1"));
    assert_eq!(
        t.get_piece_at(Position(6, 1)),
        Piece::Of(PlayerColor::White, PieceKind::Rook)
    );
    assert_eq!(t.get_piece_at(Position(8, 1)), Piece::Empty);
    assert_eq!(
        t.get_piece_at(Position(7, 1)),
        Piece::Of(PlayerColor::White, PieceKind::King)
    );

    // Black, queen-side: e8-c8 carries the a8 rook to d8.
    let mut t = Table::default();
    for sqr in ["b8", "c8", "d8"] {
        t.set_piece_at(Position::from_str(sqr).unwrap(), Piece::Empty);
    }
    t.process_move(mv("e8c8"));
    assert_eq!(
        t.get_piece_at(Position(4, 8)),
        Piece::Of(PlayerColor::Black, PieceKind::Rook)
    );
    assert_eq!(t.get_piece_at(Position(1, 8)), Piece::Empty);
    assert_eq!(
        t.get_piece_at(Position(3, 8)),
        Piece::Of(PlayerColor::Black, PieceKind::King)
    );

    // Black, king-side: e8-g8 carries the h8 rook to f8.
    let mut t = Table::default();
    for sqr in ["f8", "g8"] {
        t.set_piece_at(Position::from_str(sqr).unwrap(), Piece::Empty);
    }
    t.process_move(mv("e8g8"));
    assert_eq!(
        t.get_piece_at(Position(6, 8)),
        Piece::Of(PlayerColor::Black, PieceKind::Rook)
    );
    assert_eq!(t.get_piece_at(Position(8, 8)), Piece::Empty);
    assert_eq!(
        t.get_piece_at(Position(7, 8)),
        Piece::Of(PlayerColor::Black, PieceKind::King)
    );
}

#[test]
fn pawn_promotes_to_queen() {
    let mut t = empty_board();
    t.set_piece_at(Position(1, 7), Piece::Of(PlayerColor::White, PieceKind::Pawn));
    t.process_move(mv("a7a8"));
    assert_eq!(
        t.get_piece_at(Position(1, 8)),
        Piece::Of(PlayerColor::White, PieceKind::Queen)
    );
}

#[test]
fn promotion_only_on_own_farthest_rank() {
    // a black pawn reaching rank 1 promotes
    let mut t = empty_board();
    t.set_piece_at(Position(2, 2), Piece::Of(PlayerColor::Black, PieceKind::Pawn));
    t.process_move(mv("b2b1"));
    assert_eq!(
        t.get_piece_at(Position(2, 1)),
        Piece::Of(PlayerColor::Black, PieceKind::Queen)
    );
    // a white pawn arriving on rank 1 does not
    let mut t = empty_board();
    t.set_piece_at(Position(2, 2), Piece::Of(PlayerColor::White, PieceKind::Pawn));
    t.process_move(mv("b2b1"));
    assert_eq!(
        t.get_piece_at(Position(2, 1)),
        Piece::Of(PlayerColor::White, PieceKind::Pawn)
    );
}

#[test]
fn in_check_detection() {
    let mut t = empty_board();
    t.set_piece_at(Position(5, 1), Piece::Of(PlayerColor::White, PieceKind::King));
    t.set_piece_at(Position(5, 8), Piece::Of(PlayerColor::Black, PieceKind::Rook));
    assert!(t.in_check(PlayerColor::White));
    t.set_piece_at(Position(5, 4), Piece::Of(PlayerColor::Black, PieceKind::Pawn));
    assert!(!t.in_check(PlayerColor::White));
}

#[test]
fn move_score_is_deterministic() {
    let t = Table::default();
    let m = mv("g1f3");
    assert_eq!(t.move_score(m), t.move_score(m));
    assert_eq!(t.move_score(mv("e2e4")), t.move_score(mv("e2e4")));
}

#[test]
fn capture_scores_higher_than_identical_quiet_move() {
    let mut with_target = empty_board();
    with_target.set_piece_at(Position(1, 1), Piece::Of(PlayerColor::White, PieceKind::Rook));
    with_target.set_piece_at(Position(3, 1), Piece::Of(PlayerColor::Black, PieceKind::Knight));
    let mut quiet = empty_board();
    quiet.set_piece_at(Position(1, 1), Piece::Of(PlayerColor::White, PieceKind::Rook));
    let m = mv("a1c1");
    let capture_score = with_target.move_score(m);
    let quiet_score = quiet.move_score(m);
    assert!(capture_score > quiet_score);
    // capture adds exactly value(knight) * 17
    assert_eq!(capture_score - quiet_score, 3 * 17);
}

#[test]
fn center_destination_scores_bonus() {
    let mut a = empty_board();
    a.set_piece_at(Position(4, 1), Piece::Of(PlayerColor::White, PieceKind::Rook));
    let center = a.move_score(mv("d1d4"));
    let edge = a.move_score(mv("d1d3"));
    assert_eq!(center - edge, 12);
}

#[test]
fn resignation_bailout_fires_on_material_deficit() {
    let mut t = empty_board();
    t.set_piece_at(Position(5, 1), Piece::Of(PlayerColor::White, PieceKind::King));
    t.set_piece_at(Position(1, 2), Piece::Of(PlayerColor::White, PieceKind::Pawn));
    t.set_piece_at(Position(5, 8), Piece::Of(PlayerColor::Black, PieceKind::King));
    t.set_piece_at(Position(4, 8), Piece::Of(PlayerColor::Black, PieceKind::Queen));
    t.set_piece_at(Position(1, 8), Piece::Of(PlayerColor::Black, PieceKind::Rook));
    t.set_piece_at(Position(8, 8), Piece::Of(PlayerColor::Black, PieceKind::Rook));
    t.set_piece_at(Position(2, 8), Piece::Of(PlayerColor::Black, PieceKind::Knight));
    t.set_piece_at(Position(7, 8), Piece::Of(PlayerColor::Black, PieceKind::Knight));
    // 8 pieces on the board, own material 19, opponent 43: resign outright.
    assert_eq!(t.score(PlayerColor::White), 19);
    assert_eq!(t.score(PlayerColor::Black), 43);
    assert_eq!(t.pieces().len(), 8);
    assert!(matches!(
        start_turn(&t, PlayerColor::White),
        TurnStart::ResignNow
    ));
}

#[test]
fn tablebase_path_iff_seven_pieces_or_fewer() {
    let mut t = empty_board();
    t.set_piece_at(Position(5, 1), Piece::Of(PlayerColor::White, PieceKind::King));
    t.set_piece_at(Position(5, 8), Piece::Of(PlayerColor::Black, PieceKind::King));
    t.set_piece_at(Position(1, 1), Piece::Of(PlayerColor::White, PieceKind::Rook));
    assert_eq!(t.pieces().len(), 3);
    match start_turn(&t, PlayerColor::White) {
        TurnStart::Lookup(fen) => {
            assert!(fen.ends_with(" w - - 0 1"));
        }
        _ => panic!("expected the tablebase path with 3 pieces"),
    }
    // the default board holds 32 pieces: no tablebase lookup
    let full = Table::default();
    assert!(!matches!(
        start_turn(&full, PlayerColor::White),
        TurnStart::Lookup(_)
    ));
}

#[test]
fn ranked_candidates_sorted_descending() {
    let t = Table::default();
    let sel = rank_moves(&t, PlayerColor::White);
    assert!(!sel.ranked.is_empty());
    for w in sel.ranked.windows(2) {
        assert!(w[0].0 >= w[1].0);
    }
}

#[test]
fn selection_retry_plays_the_next_ranked_candidate() {
    let t = empty_board();
    let m1 = mv("a1a2");
    let m2 = mv("b1b2");
    let m3 = mv("c1c2");
    let mut sel = Selection {
        ranked: vec![(30, m1), (20, m2), (10, m3)],
    };
    // The submission interface rejects the top two candidates and accepts
    // the third: the turn must end on exactly the third-ranked move.
    let mut accepted: Option<Move> = None;
    let mut rejections = 0;
    loop {
        match sel.next_candidate(&t, PlayerColor::White, 0) {
            Probe::Exhausted => break,
            Probe::Dropped => continue,
            Probe::Offer(m) => {
                if rejections < 2 {
                    rejections += 1;
                    sel.reject(m);
                } else {
                    accepted = Some(m);
                    break;
                }
            }
        }
    }
    assert_eq!(accepted, Some(m3));
}

#[test]
fn selection_exhausts_to_resignation() {
    let t = empty_board();
    let mut sel = Selection { ranked: Vec::new() };
    assert_eq!(
        sel.next_candidate(&t, PlayerColor::White, 0),
        Probe::Exhausted
    );
}

#[test]
fn self_check_candidate_is_dropped() {
    let mut t = empty_board();
    t.set_piece_at(Position(5, 1), Piece::Of(PlayerColor::White, PieceKind::King));
    t.set_piece_at(Position(5, 2), Piece::Of(PlayerColor::White, PieceKind::Rook));
    t.set_piece_at(Position(5, 8), Piece::Of(PlayerColor::Black, PieceKind::Rook));
    // moving the rook off the e-file exposes the king
    let pinned = mv("e2a2");
    let safe = mv("e2e5");
    let mut sel = Selection {
        ranked: vec![(10, pinned), (5, safe)],
    };
    assert_eq!(
        sel.next_candidate(&t, PlayerColor::White, 0),
        Probe::Dropped
    );
    assert_eq!(
        sel.next_candidate(&t, PlayerColor::White, 0),
        Probe::Offer(safe)
    );
}

#[test]
fn random_walk_clamps_to_last_rank() {
    let t = empty_board();
    let m1 = mv("a1a2");
    let m2 = mv("b1b2");
    let mut sel = Selection {
        ranked: vec![(2, m1), (1, m2)],
    };
    assert_eq!(
        sel.next_candidate(&t, PlayerColor::White, 5),
        Probe::Offer(m2)
    );
}

#[test]
fn walk_steps_counts_leading_trues() {
    assert_eq!(chessbot::engine::walk_steps(&vec![]), 0);
    assert_eq!(chessbot::engine::walk_steps(&vec![false, true]), 0);
    assert_eq!(chessbot::engine::walk_steps(&vec![true, true, false, true]), 2);
}

#[test]
fn session_lifecycle() {
    let mut g = Game::new("game1".to_string());
    assert_eq!(g.state, SessionState::Unassigned);
    assert_eq!(g.my_color, PlayerColor::Unknown);

    let to_move = g.on_full_event(&"botname".to_string(), &"botname".to_string());
    assert!(to_move);
    assert_eq!(g.my_color, PlayerColor::White);
    assert_eq!(g.state, SessionState::ToMove);

    let to_move = g.on_state_event(vec![mv("e2e4")], GameStatus::Started);
    assert!(!to_move);
    assert_eq!(g.state, SessionState::WaitingOpponent);
    assert_eq!(
        g.table.get_piece_at(Position(5, 4)),
        Piece::Of(PlayerColor::White, PieceKind::Pawn)
    );

    let to_move = g.on_state_event(vec![mv("e2e4"), mv("e7e5")], GameStatus::Started);
    assert!(to_move);
    assert_eq!(g.state, SessionState::ToMove);

    let to_move = g.on_state_event(vec![mv("e2e4"), mv("e7e5")], GameStatus::Mate);
    assert!(!to_move);
    assert_eq!(g.state, SessionState::Ended);
}

#[test]
fn unknown_status_ends_session() {
    let mut g = Game::new("game4".to_string());
    g.on_full_event(&"botname".to_string(), &"botname".to_string());
    let to_move = g.on_state_event(vec![mv("e2e4")], GameStatus::Other);
    assert!(!to_move);
    assert_eq!(g.state, SessionState::Ended);
}

#[test]
fn session_assigns_black_and_waits() {
    let mut g = Game::new("game2".to_string());
    let to_move = g.on_full_event(&"someone_else".to_string(), &"botname".to_string());
    assert!(!to_move);
    assert_eq!(g.my_color, PlayerColor::Black);
    assert_eq!(g.state, SessionState::WaitingOpponent);
}

#[test]
fn apply_move_appends_history() {
    let mut g = Game::new("game3".to_string());
    g.apply_move(mv("e2e4"));
    assert_eq!(g.moves.len(), 1);
    assert_eq!(g.moves[0], mv("e2e4"));
    assert_eq!(g.table.get_piece_at(Position(5, 2)), Piece::Empty);
}

#[test]
fn piece_values_and_colors() {
    assert_eq!(Piece::Of(PlayerColor::White, PieceKind::King).value(), 18);
    assert_eq!(Piece::Of(PlayerColor::Black, PieceKind::Queen).value(), 9);
    assert_eq!(Piece::Of(PlayerColor::White, PieceKind::Pawn).value(), 1);
    assert_eq!(Piece::Empty.value(), 0);
    assert_eq!(
        Piece::Of(PlayerColor::Black, PieceKind::Rook).color(),
        PlayerColor::Black
    );
    assert_eq!(Piece::Empty.color(), PlayerColor::Unknown);
    assert_eq!(opposite(PlayerColor::White), PlayerColor::Black);
    assert_eq!(opposite(PlayerColor::Black), PlayerColor::White);
}

#[test]
fn pseudo_moves_of_knight() {
    let knight = Piece::Of(PlayerColor::White, PieceKind::Knight);
    // exactly the two on-board L-moves, destinations in scan order
    let from_corner = knight.moves(Position(1, 1));
    assert_eq!(from_corner, vec![mv("a1b3"), mv("a1c2")]);
    let from_center = knight.moves(Position(4, 4));
    assert_eq!(from_center.len(), 8);
}

#[test]
fn pieces_walk_in_file_major_order() {
    let t = Table::default();
    let pieces = t.pieces();
    assert_eq!(
        pieces[0],
        (Position(1, 1), Piece::Of(PlayerColor::White, PieceKind::Rook))
    );
    assert_eq!(
        pieces[1],
        (Position(1, 2), Piece::Of(PlayerColor::White, PieceKind::Pawn))
    );
    assert_eq!(
        pieces[2],
        (Position(1, 7), Piece::Of(PlayerColor::Black, PieceKind::Pawn))
    );
    assert_eq!(
        pieces[3],
        (Position(1, 8), Piece::Of(PlayerColor::Black, PieceKind::Rook))
    );
    let white = t.pieces_colored(PlayerColor::White);
    assert_eq!(
        white[0],
        (Position(1, 1), Piece::Of(PlayerColor::White, PieceKind::Rook))
    );
    assert_eq!(
        white[1],
        (Position(1, 2), Piece::Of(PlayerColor::White, PieceKind::Pawn))
    );
    assert_eq!(
        white[2],
        (Position(2, 1), Piece::Of(PlayerColor::White, PieceKind::Knight))
    );
}

#[test]
fn available_moves_of_initial_board() {
    let t = Table::default();
    let moves = t.available_moves(PlayerColor::White);
    // 16 pawn moves and 4 knight moves open the game
    assert_eq!(moves.len(), 20);
}
