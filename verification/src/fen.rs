use vstd::prelude::*;

use crate::board::Table;
use crate::piece::{Piece, PieceKind, PlayerColor};
use crate::position::{rank_str, spec_rank_char, Position};

verus! {

/// The FEN letter of a piece: uppercase for White, lowercase for Black,
/// regardless of whose turn it is.
pub open spec fn piece_letter(p: Piece) -> Seq<char> {
    match p {
        Piece::Of(PlayerColor::White, PieceKind::King) => "K"@,
        Piece::Of(PlayerColor::White, PieceKind::Queen) => "Q"@,
        Piece::Of(PlayerColor::White, PieceKind::Rook) => "R"@,
        Piece::Of(PlayerColor::White, PieceKind::Knight) => "N"@,
        Piece::Of(PlayerColor::White, PieceKind::Bishop) => "B"@,
        Piece::Of(PlayerColor::White, PieceKind::Pawn) => "P"@,
        Piece::Of(PlayerColor::Black, PieceKind::King) => "k"@,
        Piece::Of(PlayerColor::Black, PieceKind::Queen) => "q"@,
        Piece::Of(PlayerColor::Black, PieceKind::Rook) => "r"@,
        Piece::Of(PlayerColor::Black, PieceKind::Knight) => "n"@,
        Piece::Of(PlayerColor::Black, PieceKind::Bishop) => "b"@,
        Piece::Of(PlayerColor::Black, PieceKind::Pawn) => "p"@,
        Piece::Of(PlayerColor::Unknown, _) => "err"@,
        Piece::Empty => ""@,
    }
}

/// The digit collapsing a run of `pending` empty squares, or nothing when
/// the run is empty.
pub open spec fn run_digits(pending: int) -> Seq<char> {
    if pending > 0 {
        seq![spec_rank_char(pending)]
    } else {
        Seq::empty()
    }
}

/// The FEN text of one rank from `file` on, with `pending` empty squares
/// not yet collapsed: files walked from the 'a' side to the 'h' side,
/// runs of empty squares collapsed to a digit.
pub open spec fn fen_row_from(s: Seq<Piece>, rank: int, file: int, pending: int) -> Seq<char>
    decreases 9 - file,
{
    if file < 1 || file > 8 {
        run_digits(pending)
    } else if s[(rank - 1) * 8 + (file - 1)] == Piece::Empty {
        fen_row_from(s, rank, file + 1, pending + 1)
    } else {
        run_digits(pending) + piece_letter(s[(rank - 1) * 8 + (file - 1)]) + fen_row_from(
            s,
            rank,
            file + 1,
            0,
        )
    }
}

/// The FEN placement text of ranks `rank` down to 1, highest rank first,
/// separated by slashes.
pub open spec fn fen_rows(s: Seq<Piece>, rank: int) -> Seq<char>
    decreases rank,
{
    if rank <= 1 {
        fen_row_from(s, 1, 1, 0)
    } else {
        fen_row_from(s, rank, 1, 0) + "/"@ + fen_rows(s, rank - 1)
    }
}

/// The full FEN export: the placement of all eight ranks, the side to move
/// as passed in, and fixed placeholders for castling rights, the en-passant
/// target and the move counters.
pub open spec fn spec_fen(s: Seq<Piece>, player_to_move: PlayerColor) -> Seq<char> {
    fen_rows(s, 8) + " "@ + (if player_to_move == PlayerColor::White {
        "w"@
    } else {
        "b"@
    }) + " - - 0 1"@
}

/// Executable counterpart of `piece_letter`.
fn piece_str(p: Piece) -> (r: &'static str)
    ensures
        r@ =~= piece_letter(p),
{
    proof {
        reveal_strlit("K");
        reveal_strlit("Q");
        reveal_strlit("R");
        reveal_strlit("N");
        reveal_strlit("B");
        reveal_strlit("P");
        reveal_strlit("k");
        reveal_strlit("q");
        reveal_strlit("r");
        reveal_strlit("n");
        reveal_strlit("b");
        reveal_strlit("p");
        reveal_strlit("err");
        reveal_strlit("");
    }
    match p {
        Piece::Of(PlayerColor::White, PieceKind::King) => "K",
        Piece::Of(PlayerColor::White, PieceKind::Queen) => "Q",
        Piece::Of(PlayerColor::White, PieceKind::Rook) => "R",
        Piece::Of(PlayerColor::White, PieceKind::Knight) => "N",
        Piece::Of(PlayerColor::White, PieceKind::Bishop) => "B",
        Piece::Of(PlayerColor::White, PieceKind::Pawn) => "P",
        Piece::Of(PlayerColor::Black, PieceKind::King) => "k",
        Piece::Of(PlayerColor::Black, PieceKind::Queen) => "q",
        Piece::Of(PlayerColor::Black, PieceKind::Rook) => "r",
        Piece::Of(PlayerColor::Black, PieceKind::Knight) => "n",
        Piece::Of(PlayerColor::Black, PieceKind::Bishop) => "b",
        Piece::Of(PlayerColor::Black, PieceKind::Pawn) => "p",
        Piece::Of(PlayerColor::Unknown, _) => "err",
        Piece::Empty => "",
    }
}

impl Table {
    /// The board's FEN export with the given side to move; see `spec_fen`.
    pub fn fen(&self, player_to_move: PlayerColor) -> (r: String)
        requires
            self.wf(),
        ensures
            r@ == spec_fen(self@, player_to_move),
    {
        let mut out = String::new();
        let mut rank: i64 = 8;
        while rank >= 1
            invariant
                self.wf(),
                0 <= rank <= 8,
                rank == 8 ==> out@ =~= Seq::<char>::empty(),
                1 <= rank < 8 ==> out@ + fen_rows(self@, rank as int) =~= fen_rows(self@, 8),
                rank == 0 ==> out@ =~= fen_rows(self@, 8),
            decreases rank,
        {
            let ghost base = out@;
            let mut pending: i64 = 0;
            let mut file: i64 = 1;
            while file <= 8
                invariant
                    self.wf(),
                    1 <= rank <= 8,
                    1 <= file <= 9,
                    0 <= pending < file,
                    base + fen_row_from(self@, rank as int, 1, 0) =~= out@ + fen_row_from(
                        self@,
                        rank as int,
                        file as int,
                        pending as int,
                    ),
                decreases 9 - file,
            {
                let ghost pre_out = out@;
                let ghost pre_file = file as int;
                let ghost pre_pending = pending as int;
                let piece = self.get_piece_at(Position(file, rank));
                proof {
                    assert(piece == self@[(rank - 1) * 8 + (file - 1)]);
                }
                if piece == Piece::Empty {
                    pending = pending + 1;
                    proof {
                        assert(fen_row_from(self@, rank as int, pre_file, pre_pending)
                            == fen_row_from(self@, rank as int, pre_file + 1, pre_pending + 1));
                    }
                } else {
                    if pending > 0 {
                        out.append(rank_str(pending));
                    }
                    out.append(piece_str(piece));
                    pending = 0;
                    proof {
                        assert(fen_row_from(self@, rank as int, pre_file, pre_pending)
                            == run_digits(pre_pending) + piece_letter(piece) + fen_row_from(
                            self@,
                            rank as int,
                            pre_file + 1,
                            0,
                        ));
                        assert(out@ =~= pre_out + run_digits(pre_pending) + piece_letter(piece));
                        assert(pre_out + fen_row_from(self@, rank as int, pre_file, pre_pending)
                            =~= out@ + fen_row_from(self@, rank as int, pre_file + 1, 0));
                    }
                }
                file = file + 1;
            }
            if pending > 0 {
                out.append(rank_str(pending));
            }
            proof {
                assert(out@ =~= base + fen_row_from(self@, rank as int, 1, 0));
            }
            if rank > 1 {
                out.append("/");
            }
            rank = rank - 1;
        }
        out.append(" ");
        if player_to_move == PlayerColor::White {
            out.append("w");
        } else {
            out.append("b");
        }
        out.append(" - - 0 1");
        proof {
            assert(out@ =~= spec_fen(self@, player_to_move));
        }
        out
    }
}

} // verus!
