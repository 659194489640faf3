//! Repairing path data: relative moves made absolute, arc commands completed,
//! and the text tidied.
//!
//! The absolute coordinates of a move are computed in floating point, which
//! this library does not do: [`repair_plan`] lays the output out as pieces of
//! text and moves, the caller writes each move, and [`repair_finish`]
//! assembles and tidies the result.
use vstd::prelude::*;

use crate::text::{
    chars_of, push_chars, push_str, replace_all, replace_chars, split_whitespace, split_ws,
    string_of, strs, views, opt_view,
};
use crate::xml::{tidy, tidy_exec};

verus! {

/// One piece of repaired path data.
pub enum RepairPiece {
    /// Text that stands as it is.
    Text(String),
    /// A move command: `relative` for `m` (offset from the previous move's
    /// point, where there was one), else `M`; `x` and `y` as written.
    Move { relative: bool, x: String, y: String },
}

/// The abstract form of a [`RepairPiece`].
pub enum PieceModel {
    Text(Seq<char>),
    Move(bool, Seq<char>, Seq<char>),
}

/// The abstract form of a piece.
pub open spec fn piece_model(p: RepairPiece) -> PieceModel {
    match p {
        RepairPiece::Text(t) => PieceModel::Text(t@),
        RepairPiece::Move { relative, x, y } => PieceModel::Move(relative, x@, y@),
    }
}

/// The abstract forms of pieces.
pub open spec fn piece_models(ps: Seq<RepairPiece>) -> Seq<PieceModel> {
    ps.map_values(|p: RepairPiece| piece_model(p))
}

/// The tokens of path data: commas read as spaces, split at white space.
pub open spec fn path_tokens(path: Seq<char>) -> Seq<Seq<char>> {
    split_ws(replace_all(path, ","@, " "@))
}

/// `A{rx} {ry} {rot} {large} {sweep} {dx} {dy} `
pub open spec fn arc_text(
    rx: Seq<char>,
    ry: Seq<char>,
    rot: Seq<char>,
    large: Seq<char>,
    sweep: Seq<char>,
    dx: Seq<char>,
    dy: Seq<char>,
) -> Seq<char> {
    "A"@ + rx + " "@ + ry + " "@ + rot + " "@ + large + " "@ + sweep + " "@ + dx + " "@ + dy + " "@
}

/// `piece` in front of `rest`, where there is a rest.
pub open spec fn prepend(piece: PieceModel, rest: Option<Seq<PieceModel>>) -> Option<Seq<PieceModel>> {
    match rest {
        Some(r) => Some(seq![piece] + r),
        None => None,
    }
}

/// The pieces that the tokens from `i` on turn into, walking left to right:
/// - `m`/`M` with two tokens after it: a move, then from three tokens on;
///   with one token after it, the walk fails; as the last token, it is dropped;
/// - `a`/`A` with seven tokens after it: an arc with those values, then from
///   eight tokens on; with exactly five after it: an arc whose flags are `1 1`,
///   then from six tokens on; with four or six after it, the walk fails; with
///   fewer than four, the command is dropped;
/// - any other token: the token and a space.
///
/// A failed walk (`None`) is where reading tokens past the end would fail.
pub open spec fn repair_pieces(t: Seq<Seq<char>>, i: int) -> Option<Seq<PieceModel>>
    decreases t.len() - i,
{
    if i < 0 || i >= t.len() {
        Some(seq![])
    } else {
        let tok = t[i];
        let k = t.len() - i;
        if tok == seq!['m'] || tok == seq!['M'] {
            if k >= 3 {
                prepend(PieceModel::Move(tok == seq!['m'], t[i + 1], t[i + 2]), repair_pieces(t, i + 3))
            } else if k == 2 {
                None
            } else {
                repair_pieces(t, i + 1)
            }
        } else if tok == seq!['a'] || tok == seq!['A'] {
            if k >= 8 {
                prepend(
                    PieceModel::Text(arc_text(t[i + 1], t[i + 2], t[i + 3], t[i + 4], t[i + 5], t[i + 6], t[i + 7])),
                    repair_pieces(t, i + 8),
                )
            } else if k == 6 {
                prepend(
                    PieceModel::Text(arc_text(t[i + 1], t[i + 2], t[i + 3], "1"@, "1"@, t[i + 4], t[i + 5])),
                    repair_pieces(t, i + 6),
                )
            } else if k == 7 || k == 5 {
                None
            } else {
                repair_pieces(t, i + 1)
            }
        } else {
            prepend(PieceModel::Text(tok + " "@), repair_pieces(t, i + 1))
        }
    }
}

/// `M` is an absolute move and `m` a relative one: wherever the walk meets
/// either with two values after it and goes on, its first piece is a move to
/// those values, relative exactly for `m`.
pub proof fn law_only_lower_case_moves_are_relative(t: Seq<Seq<char>>, i: int)
    requires
        0 <= i,
        i + 3 <= t.len(),
        repair_pieces(t, i) is Some,
    ensures
        t[i] == seq!['M'] ==> repair_pieces(t, i).unwrap()[0] == PieceModel::Move(false, t[i + 1], t[i + 2]),
        t[i] == seq!['m'] ==> repair_pieces(t, i).unwrap()[0] == PieceModel::Move(true, t[i + 1], t[i + 2]),
{
    assert(seq!['M'] != seq!['m']) by {
        assert(seq!['M'][0] != seq!['m'][0]);
    }
}

/// Whether `v` holds the one character `c`.
fn is_single(v: &Vec<char>, c: char) -> (res: bool)
    ensures
        res == (v@ == seq![c]),
{
    if v.len() == 1 && v[0] == c {
        assert(v@ =~= seq![c]);
        true
    } else {
        false
    }
}

/// The arc text for the given values.
fn arc_piece(
    rx: &Vec<char>,
    ry: &Vec<char>,
    rot: &Vec<char>,
    large: &Vec<char>,
    sweep: &Vec<char>,
    dx: &Vec<char>,
    dy: &Vec<char>,
) -> (res: RepairPiece)
    ensures
        piece_model(res) == PieceModel::Text(arc_text(rx@, ry@, rot@, large@, sweep@, dx@, dy@)),
{
    let mut v = chars_of("A");
    push_chars(&mut v, rx);
    push_str(&mut v, " ");
    push_chars(&mut v, ry);
    push_str(&mut v, " ");
    push_chars(&mut v, rot);
    push_str(&mut v, " ");
    push_chars(&mut v, large);
    push_str(&mut v, " ");
    push_chars(&mut v, sweep);
    push_str(&mut v, " ");
    push_chars(&mut v, dx);
    push_str(&mut v, " ");
    push_chars(&mut v, dy);
    push_str(&mut v, " ");
    RepairPiece::Text(string_of(&v))
}

/// One step of the walk of [`repair_pieces`].
enum Step {
    /// The walk fails here.
    Fail,
    /// Nothing is produced; the walk goes on from the given token.
    Skip(usize),
    /// A piece is produced; the walk goes on from the given token.
    Emit(RepairPiece, usize),
}

/// Takes one step of the walk of [`repair_pieces`] at token `i`.
fn repair_step(tokens: &Vec<Vec<char>>, i: usize) -> (res: Step)
    requires
        i < tokens@.len(),
    ensures
        match res {
            Step::Fail => repair_pieces(views(tokens@), i as int) is None,
            Step::Skip(j) => i < j <= tokens@.len() && repair_pieces(views(tokens@), i as int)
                == repair_pieces(views(tokens@), j as int),
            Step::Emit(p, j) => i < j <= tokens@.len() && repair_pieces(views(tokens@), i as int)
                == prepend(piece_model(p), repair_pieces(views(tokens@), j as int)),
        },
{
    let ghost t = views(tokens@);
    let n = tokens.len();
    let k = n - i;
    let tok = &tokens[i];
    assert(t[i as int] == tok@);
    let is_lower_m = is_single(tok, 'm');
    if is_lower_m || is_single(tok, 'M') {
        if k >= 3 {
            assert(t[i + 1] == tokens@[i + 1]@);
            assert(t[i + 2] == tokens@[i + 2]@);
            Step::Emit(
                RepairPiece::Move {
                    relative: is_lower_m,
                    x: string_of(&tokens[i + 1]),
                    y: string_of(&tokens[i + 2]),
                },
                i + 3,
            )
        } else if k == 2 {
            Step::Fail
        } else {
            Step::Skip(i + 1)
        }
    } else if is_single(tok, 'a') || is_single(tok, 'A') {
        if k >= 8 {
            assert(t[i + 1] == tokens@[i + 1]@);
            assert(t[i + 2] == tokens@[i + 2]@);
            assert(t[i + 3] == tokens@[i + 3]@);
            assert(t[i + 4] == tokens@[i + 4]@);
            assert(t[i + 5] == tokens@[i + 5]@);
            assert(t[i + 6] == tokens@[i + 6]@);
            assert(t[i + 7] == tokens@[i + 7]@);
            let piece = arc_piece(
                &tokens[i + 1],
                &tokens[i + 2],
                &tokens[i + 3],
                &tokens[i + 4],
                &tokens[i + 5],
                &tokens[i + 6],
                &tokens[i + 7],
            );
            Step::Emit(piece, i + 8)
        } else if k == 6 {
            assert(t[i + 1] == tokens@[i + 1]@);
            assert(t[i + 2] == tokens@[i + 2]@);
            assert(t[i + 3] == tokens@[i + 3]@);
            assert(t[i + 4] == tokens@[i + 4]@);
            assert(t[i + 5] == tokens@[i + 5]@);
            let piece = arc_piece(
                &tokens[i + 1],
                &tokens[i + 2],
                &tokens[i + 3],
                &chars_of("1"),
                &chars_of("1"),
                &tokens[i + 4],
                &tokens[i + 5],
            );
            Step::Emit(piece, i + 6)
        } else if k == 7 || k == 5 {
            Step::Fail
        } else {
            Step::Skip(i + 1)
        }
    } else {
        let mut v = tok.clone();
        push_str(&mut v, " ");
        Step::Emit(RepairPiece::Text(string_of(&v)), i + 1)
    }
}

/// Lays out the repair of path data as pieces of text and moves, in order.
/// `None` exactly where the walk of [`repair_pieces`] fails: where a move or
/// an arc command stands so close to the end that reading its values would
/// run past the last token.
pub fn repair_plan(path: &str) -> (res: Option<Vec<RepairPiece>>)
    ensures
        match res {
            Some(ps) => repair_pieces(path_tokens(path@), 0) == Some(piece_models(ps@)),
            None => repair_pieces(path_tokens(path@), 0) is None,
        },
{
    proof {
        reveal_strlit(",");
    }
    let commas = chars_of(",");
    let space = chars_of(" ");
    let tokens = split_whitespace(&replace_chars(&chars_of(path), &commas, &space));
    let ghost t = views(tokens@);
    assert(t == path_tokens(path@));
    let n = tokens.len();
    let mut pieces: Vec<RepairPiece> = Vec::new();
    let mut i: usize = 0;
    while i < n
        invariant
            n == tokens@.len(),
            t == views(tokens@),
            t == path_tokens(path@),
            i <= n,
            repair_pieces(t, 0) == match repair_pieces(t, i as int) {
                Some(r) => Some(piece_models(pieces@) + r),
                None => None,
            },
        decreases n - i,
    {
        match repair_step(&tokens, i) {
            Step::Fail => {
                return None;
            },
            Step::Skip(j) => {
                i = j;
            },
            Step::Emit(piece, j) => {
                proof {
                    let before = piece_models(pieces@);
                    assert(piece_models(pieces@.push(piece)) == before.push(piece_model(piece)));
                    if let Some(r) = repair_pieces(t, j as int) {
                        assert(before.push(piece_model(piece)) + r == before + (seq![piece_model(piece)] + r));
                    }
                }
                pieces.push(piece);
                i = j;
            },
        }
    }
    assert(piece_models(pieces@) + seq![] == piece_models(pieces@));
    Some(pieces)
}

/// The number of moves among `ps`.
pub open spec fn move_count(ps: Seq<PieceModel>) -> nat
    decreases ps.len(),
{
    if ps.len() == 0 {
        0
    } else {
        move_count(ps.drop_last()) + if ps.last() is Move {
            1nat
        } else {
            0nat
        }
    }
}

/// The text of `ps`, the `k`-th move written as `moves[k]`.
pub open spec fn assemble(ps: Seq<PieceModel>, moves: Seq<Seq<char>>) -> Seq<char>
    decreases ps.len(),
{
    if ps.len() == 0 {
        seq![]
    } else {
        match ps.last() {
            PieceModel::Text(s) => assemble(ps.drop_last(), moves) + s,
            PieceModel::Move(..) => assemble(ps.drop_last(), moves.drop_last()) + moves.last(),
        }
    }
}

/// Assembles repaired path data from its pieces, the `k`-th move written as
/// `moves[k]` (for a move to the point (x, y): `M`, x, a space, y and a space),
/// then tidies it: each whole number written with a `.0` fraction loses the
/// fraction, white-space runs become one space, the ends are trimmed. `None`
/// only where `regex` does not accept one of the fixed patterns.
pub fn repair_finish(pieces: &Vec<RepairPiece>, moves: &Vec<String>) -> (res: Option<String>)
    requires
        moves@.len() == move_count(piece_models(pieces@)),
    ensures
        opt_view(res) == tidy(assemble(piece_models(pieces@), strs(moves@))),
{
    let ghost ps = piece_models(pieces@);
    let ghost ms = strs(moves@);
    let mut out = String::new();
    let mut j: usize = 0;
    for i in 0..pieces.len()
        invariant
            ps == piece_models(pieces@),
            ms == strs(moves@),
            moves@.len() == move_count(ps),
            j == move_count(ps.take(i as int)),
            out@ == assemble(ps.take(i as int), ms.take(j as int)),
    {
        proof {
            let t = ps.take(i + 1);
            assert(t.drop_last() == ps.take(i as int));
            assert(t.last() == piece_model(pieces@[i as int]));
            lemma_move_count_prefix(ps, i + 1);
        }
        match &pieces[i] {
            RepairPiece::Text(s) => {
                out.append(s.as_str());
            },
            RepairPiece::Move { .. } => {
                proof {
                    assert(move_count(ps.take(i + 1)) == j + 1);
                    let u = ms.take(j + 1);
                    assert(u.drop_last() == ms.take(j as int));
                    assert(u.last() == moves@[j as int]@);
                    assert(move_count(ps.take(i + 1)) == j + 1);
                }
                assert(j < moves.len());
                out.append(moves[j].as_str());
                j += 1;
            },
        }
    }
    assert(ps.take(pieces@.len() as int) == ps);
    assert(ms.take(j as int) == ms);
    tidy_exec(out.as_str())
}

proof fn lemma_move_count_prefix(ps: Seq<PieceModel>, i: int)
    requires
        0 <= i <= ps.len(),
    ensures
        move_count(ps.take(i)) <= move_count(ps),
    decreases ps.len() - i,
{
    if i < ps.len() {
        lemma_move_count_prefix(ps, i + 1);
        assert(ps.take(i + 1).drop_last() == ps.take(i));
    } else {
        assert(ps.take(i) == ps);
    }
}

} // verus!
