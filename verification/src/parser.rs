//! Reading commands and answers from a line, token by token.

use vstd::prelude::*;
use crate::chess::{fen_text, uci_move_text, Fen, UciMove};
use std::collections::HashMap;
use crate::line_break::{contains_line_break, has_line_break};
use crate::numbers::{parse_i32, parse_i64, parse_integer, parse_nonzero_u32, parse_u32, parse_u64};
use crate::tokens::{
    chars_of, lemma_read_rest, lemma_read_until_rest, same_str, scan_token, scan_until,
    spec_read, spec_read_until, words_view,
};
use crate::types::{
    currline_view, line_insert, moves_view, option_moves_view, option_view, strings_view,
    ErrorKind, MultiPv, Refutations, Eval, ProtocolError, Score, SpecGo, SpecInfo, SpecUciIn, SpecUciOption,
    SpecUciOut, UciIn, UciOption, UciOptionName, UciOptionValue, UciOut,
};

verus! {

/// The view of an optional token.
pub open spec fn token_view(t: Option<&str>) -> Option<Seq<char>> {
    match t {
        Some(s) => Some(s@),
        None => None,
    }
}

/// The result of reading from `s`: a value or the kind of the error, and what is left.
pub type SpecStep<T> = (Result<T, ErrorKind>, Seq<char>);

/// Reads an integer argument: the next token, which must be there and be a literal of a
/// type whose values run from `min` to `max`.
pub open spec fn spec_integer_arg(s: Seq<char>, signed: bool, min: int, max: int) -> SpecStep<int> {
    let (t, r) = spec_read(s);
    match t {
        None => (Err(ErrorKind::UnexpectedEndOfLine), r),
        Some(w) => match parse_integer(w, signed, min, max) {
            Some(v) => (Ok(v), r),
            None => (Err(ErrorKind::InvalidInteger), r),
        },
    }
}

/// Reads a time in milliseconds.
pub open spec fn spec_parse_millis(s: Seq<char>) -> SpecStep<u64> {
    let (v, r) = spec_integer_arg(s, false, 0, u64::MAX as int);
    match v {
        Ok(v) => (Ok(v as u64), r),
        Err(e) => (Err(e), r),
    }
}

/// Reads the moves at the start of `s`, up to the first token that is no move; that
/// token stays unread.
pub open spec fn spec_parse_moves(s: Seq<char>) -> (Seq<Seq<char>>, Seq<char>)
    decreases s.len(),
{
    match spec_read(s).0 {
        Some(w) => match uci_move_text(w) {
            Some(m) => {
                proof {
                    lemma_read_rest(s);
                }
                let (ms, r) = spec_parse_moves(spec_read(s).1);
                (seq![m] + ms, r)
            },
            None => (seq![], s),
        },
        None => (seq![], s),
    }
}

/// Reads every token of `s` as a move; the first one that is no move is an error.
pub open spec fn spec_parse_all_moves(s: Seq<char>) -> SpecStep<Seq<Seq<char>>>
    decreases s.len(),
{
    let (t, r) = spec_read(s);
    match t {
        None => (Ok(seq![]), r),
        Some(w) => match uci_move_text(w) {
            None => (Err(ErrorKind::InvalidMove), r),
            Some(m) => {
                proof {
                    lemma_read_rest(s);
                }
                let (rest, r2) = spec_parse_all_moves(r);
                match rest {
                    Ok(ms) => (Ok(seq![m] + ms), r2),
                    Err(e) => (Err(e), r2),
                }
            },
        },
    }
}

/// Reads the arguments of `setoption`: `name`, the name up to a `value` token, and that
/// token and the value up to the end of the line, where they are there.
pub open spec fn spec_parse_setoption(s: Seq<char>) -> SpecStep<SpecUciIn> {
    let (t, r) = spec_read(s);
    match t {
        None => (Err(ErrorKind::UnexpectedEndOfLine), r),
        Some(w) => if w != "name"@ {
            (Err(ErrorKind::UnexpectedToken), r)
        } else {
            let (n, r2) = spec_read_until(r, seq!["value"@]);
            match n {
                None => (Err(ErrorKind::UnexpectedEndOfLine), r2),
                Some(name) => {
                    let (t3, r3) = spec_read(r2);
                    match t3 {
                        None => (Ok(SpecUciIn::Setoption { name, value: None }), r3),
                        Some(_) => {
                            let (v, r4) = spec_read_until(r3, seq![]);
                            match v {
                                None => (Err(ErrorKind::UnexpectedEndOfLine), r4),
                                Some(value) => (
                                    Ok(SpecUciIn::Setoption { name, value: Some(value) }),
                                    r4,
                                ),
                            }
                        },
                    }
                },
            }
        },
    }
}

/// Reads the arguments of `position`: `startpos` or a position, up to a `moves` token,
/// and that token and the moves after it, where they are there.
pub open spec fn spec_parse_position(s: Seq<char>) -> SpecStep<SpecUciIn> {
    let (f, r) = spec_read_until(s, seq!["moves"@]);
    match f {
        None => (Err(ErrorKind::UnexpectedEndOfLine), r),
        Some(ft) => {
            let fen: Result<Option<Seq<char>>, ErrorKind> = if ft == "startpos"@ {
                Ok(None)
            } else {
                match fen_text(ft) {
                    Some(c) => Ok(Some(c)),
                    None => Err(ErrorKind::InvalidFen),
                }
            };
            match fen {
                Err(e) => (Err(e), r),
                Ok(fen) => {
                    let (t, r2) = spec_read(r);
                    match t {
                        None => (Ok(SpecUciIn::Position { fen, moves: seq![] }), r2),
                        Some(_) => {
                            let (ms, r3) = spec_parse_all_moves(r2);
                            match ms {
                                Ok(moves) => (Ok(SpecUciIn::Position { fen, moves }), r3),
                                Err(e) => (Err(e), r3),
                            }
                        },
                    }
                },
            }
        },
    }
}

/// Reads the `lowerbound` and `upperbound` tokens that follow an evaluation.
pub open spec fn spec_score_bounds(s: Seq<char>, lower: bool, upper: bool) -> (
    bool,
    bool,
    Seq<char>,
)
    decreases s.len(),
{
    let (t, r) = spec_read(s);
    match t {
        Some(w) => {
            proof {
                lemma_read_rest(s);
            }
            if w == "lowerbound"@ {
                spec_score_bounds(r, true, upper)
            } else if w == "upperbound"@ {
                spec_score_bounds(r, lower, true)
            } else {
                (lower, upper, s)
            }
        },
        None => (lower, upper, s),
    }
}

/// Reads a score: `cp` or `mate` and its integer, then any bounds.
pub open spec fn spec_parse_score(s: Seq<char>) -> SpecStep<Score> {
    let (t, r) = spec_read(s);
    match t {
        None => (Err(ErrorKind::UnexpectedEndOfLine), r),
        Some(w) => {
            let ev: SpecStep<Eval> = if w == "cp"@ {
                let (v, r2) = spec_integer_arg(r, true, i64::MIN as int, i64::MAX as int);
                match v {
                    Ok(v) => (Ok(Eval::Cp(v as i64)), r2),
                    Err(e) => (Err(e), r2),
                }
            } else if w == "mate"@ {
                let (v, r2) = spec_integer_arg(r, true, i32::MIN as int, i32::MAX as int);
                match v {
                    Ok(v) => (Ok(Eval::Mate(v as i32)), r2),
                    Err(e) => (Err(e), r2),
                }
            } else {
                (Err(ErrorKind::UnexpectedToken), r)
            };
            match ev.0 {
                Err(e) => (Err(e), ev.1),
                Ok(eval) => {
                    let (lower, upper, r3) = spec_score_bounds(ev.1, false, false);
                    (Ok(Score { eval, lowerbound: lower, upperbound: upper }), r3)
                },
            }
        },
    }
}

/// Reads a move that may be written `(none)` or be missing.
pub open spec fn spec_optional_move(t: Option<Seq<char>>) -> Result<Option<Seq<char>>, ErrorKind> {
    match t {
        None => Ok(None),
        Some(w) => if w == "(none)"@ {
            Ok(None)
        } else {
            match uci_move_text(w) {
                Some(m) => Ok(Some(m)),
                None => Err(ErrorKind::InvalidMove),
            }
        },
    }
}

/// Reads the arguments of `bestmove`: a move, then `ponder` and a move, where they are
/// there.
pub open spec fn spec_parse_bestmove(s: Seq<char>) -> SpecStep<SpecUciOut> {
    let (t, r) = spec_read(s);
    match spec_optional_move(t) {
        Err(e) => (Err(e), r),
        Ok(m) => {
            let (t2, r2) = spec_read(r);
            match t2 {
                None => (Ok(SpecUciOut::Bestmove { m, ponder: None }), r2),
                Some(w2) => if w2 == "ponder"@ {
                    let (t3, r3) = spec_read(r2);
                    match spec_optional_move(t3) {
                        Err(e) => (Err(e), r3),
                        Ok(ponder) => (Ok(SpecUciOut::Bestmove { m, ponder }), r3),
                    }
                } else {
                    (Err(ErrorKind::UnexpectedToken), r2)
                },
            }
        },
    }
}

/// The arguments of a `go` command before any is read.
pub open spec fn go_start() -> SpecGo {
    SpecGo {
        searchmoves: None,
        ponder: false,
        wtime: None,
        btime: None,
        winc: None,
        binc: None,
        movestogo: None,
        depth: None,
        nodes: None,
        mate: None,
        movetime: None,
        infinite: false,
    }
}

/// Reads the arguments of a `go` command, in any order, to the end of the line; `acc`
/// holds those read so far, and one read again replaces the earlier one.
pub open spec fn spec_go_args(s: Seq<char>, acc: SpecGo) -> SpecStep<SpecGo>
    decreases s.len(),
{
    let (t, r) = spec_read(s);
    match t {
        None => (Ok(acc), r),
        Some(w) => {
            proof {
                lemma_read_rest(s);
                lemma_read_rest(r);
                lemma_parse_moves_rest(r);
            }
            if w == "ponder"@ {
                spec_go_args(r, SpecGo { ponder: true, ..acc })
            } else if w == "infinite"@ {
                spec_go_args(r, SpecGo { infinite: true, ..acc })
            } else if w == "movestogo"@ {
                let (v, r2) = spec_integer_arg(r, false, 0, u32::MAX as int);
                match v {
                    Ok(v) => spec_go_args(r2, SpecGo { movestogo: Some(v as u32), ..acc }),
                    Err(e) => (Err(e), r2),
                }
            } else if w == "depth"@ {
                let (v, r2) = spec_integer_arg(r, false, 0, u32::MAX as int);
                match v {
                    Ok(v) => spec_go_args(r2, SpecGo { depth: Some(v as u32), ..acc }),
                    Err(e) => (Err(e), r2),
                }
            } else if w == "nodes"@ {
                let (v, r2) = spec_integer_arg(r, false, 0, u64::MAX as int);
                match v {
                    Ok(v) => spec_go_args(r2, SpecGo { nodes: Some(v as u64), ..acc }),
                    Err(e) => (Err(e), r2),
                }
            } else if w == "mate"@ {
                let (v, r2) = spec_integer_arg(r, false, 0, u32::MAX as int);
                match v {
                    Ok(v) => spec_go_args(r2, SpecGo { mate: Some(v as u32), ..acc }),
                    Err(e) => (Err(e), r2),
                }
            } else if w == "movetime"@ {
                let (v, r2) = spec_parse_millis(r);
                match v {
                    Ok(v) => spec_go_args(r2, SpecGo { movetime: Some(v), ..acc }),
                    Err(e) => (Err(e), r2),
                }
            } else if w == "wtime"@ {
                let (v, r2) = spec_parse_millis(r);
                match v {
                    Ok(v) => spec_go_args(r2, SpecGo { wtime: Some(v), ..acc }),
                    Err(e) => (Err(e), r2),
                }
            } else if w == "btime"@ {
                let (v, r2) = spec_parse_millis(r);
                match v {
                    Ok(v) => spec_go_args(r2, SpecGo { btime: Some(v), ..acc }),
                    Err(e) => (Err(e), r2),
                }
            } else if w == "winc"@ {
                let (v, r2) = spec_parse_millis(r);
                match v {
                    Ok(v) => spec_go_args(r2, SpecGo { winc: Some(v), ..acc }),
                    Err(e) => (Err(e), r2),
                }
            } else if w == "binc"@ {
                let (v, r2) = spec_parse_millis(r);
                match v {
                    Ok(v) => spec_go_args(r2, SpecGo { binc: Some(v), ..acc }),
                    Err(e) => (Err(e), r2),
                }
            } else if w == "searchmoves"@ {
                let (ms, r2) = spec_parse_moves(r);
                spec_go_args(r2, SpecGo { searchmoves: Some(ms), ..acc })
            } else {
                (Err(ErrorKind::UnexpectedToken), r)
            }
        },
    }
}

/// Reads the arguments of a `go` command.
pub open spec fn spec_parse_go(s: Seq<char>) -> SpecStep<SpecUciIn> {
    let (g, r) = spec_go_args(s, go_start());
    match g {
        Ok(g) => (Ok(SpecUciIn::Go(g)), r),
        Err(e) => (Err(e), r),
    }
}

/// What `spec_parse_moves` leaves is no longer than what it reads from.
pub proof fn lemma_parse_moves_rest(s: Seq<char>)
    ensures
        spec_parse_moves(s).1.len() <= s.len(),
    decreases s.len(),
{
    if let Some(w) = spec_read(s).0 {
        if let Some(_) = uci_move_text(w) {
            lemma_read_rest(s);
            lemma_parse_moves_rest(spec_read(s).1);
        }
    }
}

/// A command of a single word: the line must end after it.
pub open spec fn spec_single_word_in(r: Seq<char>, v: SpecUciIn) -> SpecStep<Option<SpecUciIn>> {
    if spec_read(r).0 is Some {
        (Err(ErrorKind::ExpectedEndOfLine), r)
    } else {
        (Ok(Some(v)), r)
    }
}

/// A command read by one of the readers of arguments.
pub open spec fn some_in(step: SpecStep<SpecUciIn>) -> SpecStep<Option<SpecUciIn>> {
    match step.0 {
        Ok(v) => (Ok(Some(v)), step.1),
        Err(e) => (Err(e), step.1),
    }
}

/// Reads a command from `s`: `None` where `s` holds only separators.
pub open spec fn spec_parse_in(s: Seq<char>) -> SpecStep<Option<SpecUciIn>> {
    let (t, r) = spec_read(s);
    match t {
        None => (Ok(None), r),
        Some(w) => if w == "uci"@ {
            spec_single_word_in(r, SpecUciIn::Uci)
        } else if w == "isready"@ {
            spec_single_word_in(r, SpecUciIn::Isready)
        } else if w == "ucinewgame"@ {
            spec_single_word_in(r, SpecUciIn::Ucinewgame)
        } else if w == "stop"@ {
            spec_single_word_in(r, SpecUciIn::Stop)
        } else if w == "ponderhit"@ {
            spec_single_word_in(r, SpecUciIn::Ponderhit)
        } else if w == "setoption"@ {
            some_in(spec_parse_setoption(r))
        } else if w == "position"@ {
            some_in(spec_parse_position(r))
        } else if w == "go"@ {
            some_in(spec_parse_go(r))
        } else {
            (Err(ErrorKind::UnexpectedToken), r)
        },
    }
}

/// What reading a command from the line `s` gives.
pub open spec fn spec_uci_in_from_line(s: Seq<char>) -> Result<Option<SpecUciIn>, ErrorKind> {
    if has_line_break(s) {
        Err(ErrorKind::UnexpectedLineBreak)
    } else {
        spec_parse_in(s).0
    }
}

/// The view of the result of reading a command.
pub open spec fn in_result_view(r: Result<Option<UciIn>, ProtocolError>) -> Result<
    Option<SpecUciIn>,
    ErrorKind,
> {
    match r {
        Ok(v) => Ok(option_view(v)),
        Err(e) => Err(e@),
    }
}

/// Reads the `true` or `false` default of a `check` option.
pub open spec fn spec_check_default(s: Seq<char>) -> SpecStep<SpecUciOption> {
    let (t, r) = spec_read(s);
    match t {
        None => (Err(ErrorKind::UnexpectedEndOfLine), r),
        Some(w) => if w == "default"@ {
            let (t2, r2) = spec_read(r);
            match t2 {
                None => (Err(ErrorKind::UnexpectedEndOfLine), r2),
                Some(w2) => if w2 == "true"@ {
                    (Ok(SpecUciOption::Check { default: true }), r2)
                } else if w2 == "false"@ {
                    (Ok(SpecUciOption::Check { default: false }), r2)
                } else {
                    (Err(ErrorKind::UnexpectedToken), r2)
                },
            }
        } else {
            (Err(ErrorKind::UnexpectedToken), r)
        },
    }
}

/// Reads the `default`, `min` and `max` arguments of a `spin` option, in any order, to
/// the end of the line.
pub open spec fn spec_spin_args(
    s: Seq<char>,
    default: Option<i64>,
    min: Option<i64>,
    max: Option<i64>,
) -> SpecStep<(Option<i64>, Option<i64>, Option<i64>)>
    decreases s.len(),
{
    let (t, r) = spec_read(s);
    match t {
        None => (Ok((default, min, max)), r),
        Some(w) => {
            proof {
                lemma_read_rest(s);
                lemma_read_rest(r);
            }
            if w == "default"@ || w == "min"@ || w == "max"@ {
                let (v, r2) = spec_integer_arg(r, true, i64::MIN as int, i64::MAX as int);
                match v {
                    Ok(v) => if w == "default"@ {
                        spec_spin_args(r2, Some(v as i64), min, max)
                    } else if w == "min"@ {
                        spec_spin_args(r2, default, Some(v as i64), max)
                    } else {
                        spec_spin_args(r2, default, min, Some(v as i64))
                    },
                    Err(e) => (Err(e), r2),
                }
            } else {
                (Err(ErrorKind::UnexpectedToken), r)
            }
        },
    }
}

/// The tokens that end the default or a variant of a `combo` option.
pub open spec fn combo_stops() -> Seq<Seq<char>> {
    seq!["default"@, "var"@]
}

/// Reads the `default` and `var` arguments of a `combo` option, in any order, to the
/// end of the line; each runs up to the next `default` or `var` token.
pub open spec fn spec_combo_args(s: Seq<char>, default: Option<Seq<char>>, var: Seq<Seq<char>>) -> SpecStep<
    (Option<Seq<char>>, Seq<Seq<char>>),
>
    decreases s.len(),
{
    let (t, r) = spec_read(s);
    match t {
        None => (Ok((default, var)), r),
        Some(w) => {
            proof {
                lemma_read_rest(s);
                lemma_read_until_rest(r, combo_stops());
            }
            if w == "default"@ || w == "var"@ {
                let (v, r2) = spec_read_until(r, combo_stops());
                match v {
                    None => (Err(ErrorKind::UnexpectedEndOfLine), r2),
                    Some(v) => if w == "default"@ {
                        spec_combo_args(r2, Some(v), var)
                    } else {
                        spec_combo_args(r2, default, var.push(v))
                    },
                }
            } else {
                (Err(ErrorKind::UnexpectedToken), r)
            }
        },
    }
}

/// Reads the kind of an option and its arguments.
pub open spec fn spec_option_kind(s: Seq<char>) -> SpecStep<SpecUciOption> {
    let (k, r) = spec_read(s);
    match k {
        None => (Err(ErrorKind::UnexpectedEndOfLine), r),
        Some(kind) => if kind == "check"@ {
            spec_check_default(r)
        } else if kind == "spin"@ {
            let (a, r2) = spec_spin_args(r, None, None, None);
            match a {
                Err(e) => (Err(e), r2),
                Ok((Some(default), Some(min), Some(max))) => (
                    Ok(SpecUciOption::Spin { default, min, max }),
                    r2,
                ),
                Ok(_) => (Err(ErrorKind::UnexpectedEndOfLine), r2),
            }
        } else if kind == "combo"@ {
            let (a, r2) = spec_combo_args(r, None, seq![]);
            match a {
                Err(e) => (Err(e), r2),
                Ok((Some(default), var)) => (Ok(SpecUciOption::Combo { default, var }), r2),
                Ok((None, _)) => (Err(ErrorKind::UnexpectedEndOfLine), r2),
            }
        } else if kind == "button"@ {
            if spec_read(r).0 is Some {
                (Err(ErrorKind::ExpectedEndOfLine), r)
            } else {
                (Ok(SpecUciOption::Button), r)
            }
        } else if kind == "string"@ {
            let (t, r2) = spec_read(r);
            match t {
                None => (Err(ErrorKind::UnexpectedEndOfLine), r2),
                Some(w) => if w == "default"@ {
                    let (v, r3) = spec_read_until(r2, seq![]);
                    (
                        Ok(
                            SpecUciOption::String {
                                default: match v {
                                    Some(v) => v,
                                    None => seq![],
                                },
                            },
                        ),
                        r3,
                    )
                } else {
                    (Err(ErrorKind::UnexpectedToken), r2)
                },
            }
        } else {
            (Err(ErrorKind::UnexpectedToken), r)
        },
    }
}

/// Reads the arguments of an `option` answer: `name`, the name up to a `type` token,
/// the next token (which is that `type` token, if any), and the kind of the option with
/// its arguments.
pub open spec fn spec_parse_option(s: Seq<char>) -> SpecStep<SpecUciOut> {
    let (t, r) = spec_read(s);
    match t {
        None => (Err(ErrorKind::UnexpectedEndOfLine), r),
        Some(w) => if w != "name"@ {
            (Err(ErrorKind::UnexpectedToken), r)
        } else {
            let (n, r2) = spec_read_until(r, seq!["type"@]);
            match n {
                None => (Err(ErrorKind::UnexpectedEndOfLine), r2),
                Some(name) => {
                    let (o, r3) = spec_option_kind(spec_read(r2).1);
                    match o {
                        Ok(option) => (Ok(SpecUciOut::Option { name, option }), r3),
                        Err(e) => (Err(e), r3),
                    }
                },
            }
        },
    }
}

/// Reads a move argument: the next token, which must be there and be a move.
pub open spec fn spec_move_arg(s: Seq<char>) -> SpecStep<Seq<char>> {
    let (t, r) = spec_read(s);
    match t {
        None => (Err(ErrorKind::UnexpectedEndOfLine), r),
        Some(w) => match uci_move_text(w) {
            Some(m) => (Ok(m), r),
            None => (Err(ErrorKind::InvalidMove), r),
        },
    }
}

/// The fields of an `info` answer before any is read.
pub open spec fn info_start() -> SpecInfo {
    SpecInfo {
        multipv: None,
        depth: None,
        seldepth: None,
        time: None,
        nodes: None,
        pv: None,
        score: None,
        currmove: None,
        currmovenumber: None,
        hashfull: None,
        nps: None,
        tbhits: None,
        sbhits: None,
        cpuload: None,
        refutation: seq![],
        currline: Map::empty(),
        string: None,
    }
}

/// Reads the fields of an `info` answer, in any order, to the end of the line; `acc`
/// holds those read so far, and one read again replaces the earlier one.
pub open spec fn spec_info_args(s: Seq<char>, acc: SpecInfo) -> SpecStep<SpecInfo>
    decreases s.len(),
{
    let (t, r) = spec_read(s);
    match t {
        None => (Ok(acc), r),
        Some(w) => {
            proof {
                lemma_read_rest(s);
                lemma_read_rest(r);
                lemma_parse_moves_rest(r);
                lemma_parse_moves_rest(spec_read(r).1);
                lemma_read_until_rest(r, seq![]);
                lemma_parse_score_rest(r);
            }
            if w == "multipv"@ {
                let (v, r2) = spec_integer_arg(r, false, 1, u32::MAX as int);
                match v {
                    Ok(v) => spec_info_args(r2, SpecInfo { multipv: Some(v as u32), ..acc }),
                    Err(e) => (Err(e), r2),
                }
            } else if w == "depth"@ {
                let (v, r2) = spec_integer_arg(r, false, 0, u32::MAX as int);
                match v {
                    Ok(v) => spec_info_args(r2, SpecInfo { depth: Some(v as u32), ..acc }),
                    Err(e) => (Err(e), r2),
                }
            } else if w == "seldepth"@ {
                let (v, r2) = spec_integer_arg(r, false, 0, u32::MAX as int);
                match v {
                    Ok(v) => spec_info_args(r2, SpecInfo { seldepth: Some(v as u32), ..acc }),
                    Err(e) => (Err(e), r2),
                }
            } else if w == "time"@ {
                let (v, r2) = spec_integer_arg(r, false, 0, u64::MAX as int);
                match v {
                    Ok(v) => spec_info_args(r2, SpecInfo { time: Some(v as u64), ..acc }),
                    Err(e) => (Err(e), r2),
                }
            } else if w == "nodes"@ {
                let (v, r2) = spec_integer_arg(r, false, 0, u64::MAX as int);
                match v {
                    Ok(v) => spec_info_args(r2, SpecInfo { nodes: Some(v as u64), ..acc }),
                    Err(e) => (Err(e), r2),
                }
            } else if w == "pv"@ {
                let (ms, r2) = spec_parse_moves(r);
                spec_info_args(r2, SpecInfo { pv: Some(ms), ..acc })
            } else if w == "score"@ {
                let (v, r2) = spec_parse_score(r);
                match v {
                    Ok(v) => spec_info_args(r2, SpecInfo { score: Some(v), ..acc }),
                    Err(e) => (Err(e), r2),
                }
            } else if w == "currmove"@ {
                let (v, r2) = spec_move_arg(r);
                match v {
                    Ok(v) => spec_info_args(r2, SpecInfo { currmove: Some(v), ..acc }),
                    Err(e) => (Err(e), r2),
                }
            } else if w == "currmovenumber"@ {
                let (v, r2) = spec_integer_arg(r, false, 0, u32::MAX as int);
                match v {
                    Ok(v) => spec_info_args(r2, SpecInfo { currmovenumber: Some(v as u32), ..acc }),
                    Err(e) => (Err(e), r2),
                }
            } else if w == "hashfull"@ {
                let (v, r2) = spec_integer_arg(r, false, 0, u32::MAX as int);
                match v {
                    Ok(v) => spec_info_args(r2, SpecInfo { hashfull: Some(v as u32), ..acc }),
                    Err(e) => (Err(e), r2),
                }
            } else if w == "nps"@ {
                let (v, r2) = spec_integer_arg(r, false, 0, u64::MAX as int);
                match v {
                    Ok(v) => spec_info_args(r2, SpecInfo { nps: Some(v as u64), ..acc }),
                    Err(e) => (Err(e), r2),
                }
            } else if w == "tbhits"@ {
                let (v, r2) = spec_integer_arg(r, false, 0, u64::MAX as int);
                match v {
                    Ok(v) => spec_info_args(r2, SpecInfo { tbhits: Some(v as u64), ..acc }),
                    Err(e) => (Err(e), r2),
                }
            } else if w == "sbhits"@ {
                let (v, r2) = spec_integer_arg(r, false, 0, u64::MAX as int);
                match v {
                    Ok(v) => spec_info_args(r2, SpecInfo { sbhits: Some(v as u64), ..acc }),
                    Err(e) => (Err(e), r2),
                }
            } else if w == "cpuload"@ {
                let (v, r2) = spec_integer_arg(r, false, 0, u32::MAX as int);
                match v {
                    Ok(v) => spec_info_args(r2, SpecInfo { cpuload: Some(v as u32), ..acc }),
                    Err(e) => (Err(e), r2),
                }
            } else if w == "refutation"@ {
                let (k, r2) = spec_move_arg(r);
                match k {
                    Ok(k) => {
                        let (ms, r3) = spec_parse_moves(r2);
                        spec_info_args(r3, SpecInfo { refutation: line_insert(acc.refutation, k, ms), ..acc })
                    },
                    Err(e) => (Err(e), r2),
                }
            } else if w == "currline"@ {
                let (k, r2) = spec_integer_arg(r, false, 0, u32::MAX as int);
                match k {
                    Ok(k) => {
                        let (ms, r3) = spec_parse_moves(r2);
                        spec_info_args(r3, SpecInfo { currline: acc.currline.insert(k as u32, ms), ..acc })
                    },
                    Err(e) => (Err(e), r2),
                }
            } else if w == "string"@ {
                let (v, r2) = spec_read_until(r, seq![]);
                spec_info_args(r2, SpecInfo { string: Some(match v { Some(v) => v, None => seq![] }), ..acc })
            } else {
                (Err(ErrorKind::UnexpectedToken), r)
            }
        },
    }
}

/// Reads the fields of an `info` answer.
pub open spec fn spec_parse_info(s: Seq<char>) -> SpecStep<SpecUciOut> {
    let (i, r) = spec_info_args(s, info_start());
    match i {
        Ok(i) => (Ok(SpecUciOut::Info(i)), r),
        Err(e) => (Err(e), r),
    }
}

/// What `spec_score_bounds` leaves is no longer than what it reads from.
pub proof fn lemma_score_bounds_rest(s: Seq<char>, lower: bool, upper: bool)
    ensures
        spec_score_bounds(s, lower, upper).2.len() <= s.len(),
    decreases s.len(),
{
    lemma_read_rest(s);
    if let Some(w) = spec_read(s).0 {
        lemma_score_bounds_rest(spec_read(s).1, true, upper);
        lemma_score_bounds_rest(spec_read(s).1, lower, true);
    }
}

/// What `spec_parse_score` leaves is no longer than what it reads from.
pub proof fn lemma_parse_score_rest(s: Seq<char>)
    ensures
        spec_parse_score(s).1.len() <= s.len(),
{
    let r = spec_read(s).1;
    lemma_read_rest(s);
    lemma_read_rest(r);
    lemma_score_bounds_rest(spec_read(r).1, false, false);
}

/// An answer read by one of the readers of arguments.
pub open spec fn some_out(step: SpecStep<SpecUciOut>) -> SpecStep<Option<SpecUciOut>> {
    match step.0 {
        Ok(v) => (Ok(Some(v)), step.1),
        Err(e) => (Err(e), step.1),
    }
}

/// Reads an answer from `s`: `None` where `s` holds only separators.
pub open spec fn spec_parse_out(s: Seq<char>) -> SpecStep<Option<SpecUciOut>> {
    let (t, r) = spec_read(s);
    match t {
        None => (Ok(None), r),
        Some(w) => if w == "id"@ {
            let (t2, r2) = spec_read(r);
            match t2 {
                None => (Err(ErrorKind::UnexpectedEndOfLine), r2),
                Some(w2) => if w2 == "name"@ || w2 == "author"@ {
                    let (v, r3) = spec_read_until(r2, seq![]);
                    match v {
                        None => (Err(ErrorKind::UnexpectedEndOfLine), r3),
                        Some(v) => (
                            Ok(
                                Some(
                                    if w2 == "name"@ {
                                        SpecUciOut::IdName(v)
                                    } else {
                                        SpecUciOut::IdAuthor(v)
                                    },
                                ),
                            ),
                            r3,
                        ),
                    }
                } else {
                    (Err(ErrorKind::UnexpectedToken), r2)
                },
            }
        } else if w == "uciok"@ {
            (Ok(Some(SpecUciOut::Uciok)), r)
        } else if w == "readyok"@ {
            (Ok(Some(SpecUciOut::Readyok)), r)
        } else if w == "bestmove"@ {
            some_out(spec_parse_bestmove(r))
        } else if w == "info"@ {
            some_out(spec_parse_info(r))
        } else if w == "option"@ {
            some_out(spec_parse_option(r))
        } else {
            (Err(ErrorKind::UnexpectedToken), r)
        },
    }
}

/// What reading an answer from the line `s` gives.
pub open spec fn spec_uci_out_from_line(s: Seq<char>) -> Result<Option<SpecUciOut>, ErrorKind> {
    if has_line_break(s) {
        Err(ErrorKind::UnexpectedLineBreak)
    } else {
        spec_parse_out(s).0
    }
}

/// The view of the result of reading an answer.
pub open spec fn out_result_view(r: Result<Option<UciOut>, ProtocolError>) -> Result<
    Option<SpecUciOut>,
    ErrorKind,
> {
    match r {
        Ok(v) => Ok(option_view(v)),
        Err(e) => Err(e@),
    }
}

/// A reader of the tokens of one line.
pub struct Parser<'a> {
    line: &'a str,
    chars: Vec<char>,
    pos: usize,
}

impl<'a> View for Parser<'a> {
    type V = Seq<char>;

    /// What is left of the line.
    closed spec fn view(&self) -> Seq<char> {
        self.chars@.skip(self.pos as int)
    }
}

impl<'a> Parser<'a> {
    #[verifier::type_invariant]
    spec fn inv(&self) -> bool {
        &&& self.chars@ == self.line@
        &&& self.pos <= self.chars@.len()
    }

    /// A reader of `s`, which must hold no line break.
    pub fn new(s: &'a str) -> (res: Result<Parser<'a>, ProtocolError>)
        ensures
            match res {
                Ok(p) => !has_line_break(s@) && p@ == s@,
                Err(e) => has_line_break(s@) && e@ == ErrorKind::UnexpectedLineBreak,
            },
    {
        if contains_line_break(s) {
            Err(ProtocolError::UnexpectedLineBreak)
        } else {
            let p = Parser { line: s, chars: chars_of(s), pos: 0 };
            assert(p.chars@.skip(0) =~= s@);
            Ok(p)
        }
    }

    /// Reads the next token.
    pub fn next(&mut self) -> (res: Option<&'a str>)
        ensures
            (token_view(res), final(self)@) == spec_read(old(self)@),
    {
        proof {
            use_type_invariant(&*self);
        }
        let (tok, rest) = scan_token(&self.chars, self.pos);
        self.pos = rest;
        match tok {
            Some((a, b)) => Some(self.line.substring_char(a, b)),
            None => None,
        }
    }

    /// The next token, which stays unread.
    pub fn peek(&self) -> (res: Option<&'a str>)
        ensures
            token_view(res) == spec_read(self@).0,
    {
        proof {
            use_type_invariant(self);
        }
        let (tok, _) = scan_token(&self.chars, self.pos);
        match tok {
            Some((a, b)) => Some(self.line.substring_char(a, b)),
            None => None,
        }
    }

    /// Reads up to the first separator that one of the words `stops` follows (see
    /// `spec_read_until`).
    pub fn until(&mut self, stops: &[&str]) -> (res: Option<&'a str>)
        ensures
            (token_view(res), final(self)@) == spec_read_until(old(self)@, words_view(stops@)),
    {
        proof {
            use_type_invariant(&*self);
        }
        let (tok, rest) = scan_until(&self.chars, self.pos, stops);
        self.pos = rest;
        match tok {
            Some((a, b)) => Some(self.line.substring_char(a, b)),
            None => None,
        }
    }

    /// Succeeds where no token is left.
    pub fn end(&self) -> (res: Result<(), ProtocolError>)
        ensures
            match res {
                Ok(()) => spec_read(self@).0 is None,
                Err(e) => spec_read(self@).0 is Some && e@ == ErrorKind::ExpectedEndOfLine,
            },
    {
        match self.peek() {
            Some(_) => Err(ProtocolError::ExpectedEndOfLine),
            None => Ok(()),
        }
    }

    /// Reads an unsigned 32-bit integer argument.
    fn next_u32(&mut self) -> (res: Result<u32, ProtocolError>)
        ensures
            spec_integer_arg(old(self)@, false, 0, u32::MAX as int) == (match res {
                Ok(v) => Ok(v as int),
                Err(e) => Err(e@),
            }, final(self)@),
    {
        match self.next() {
            Some(t) => match parse_u32(t) {
                Ok(v) => Ok(v),
                Err(e) => Err(ProtocolError::InvalidInteger(e)),
            },
            None => Err(ProtocolError::UnexpectedEndOfLine),
        }
    }

    /// Reads a nonzero unsigned 32-bit integer argument.
    fn next_nonzero_u32(&mut self) -> (res: Result<u32, ProtocolError>)
        ensures
            spec_integer_arg(old(self)@, false, 1, u32::MAX as int) == (match res {
                Ok(v) => Ok(v as int),
                Err(e) => Err(e@),
            }, final(self)@),
    {
        match self.next() {
            Some(t) => match parse_nonzero_u32(t) {
                Ok(v) => Ok(v),
                Err(e) => Err(ProtocolError::InvalidInteger(e)),
            },
            None => Err(ProtocolError::UnexpectedEndOfLine),
        }
    }

    /// Reads an unsigned 64-bit integer argument.
    fn next_u64(&mut self) -> (res: Result<u64, ProtocolError>)
        ensures
            spec_integer_arg(old(self)@, false, 0, u64::MAX as int) == (match res {
                Ok(v) => Ok(v as int),
                Err(e) => Err(e@),
            }, final(self)@),
    {
        match self.next() {
            Some(t) => match parse_u64(t) {
                Ok(v) => Ok(v),
                Err(e) => Err(ProtocolError::InvalidInteger(e)),
            },
            None => Err(ProtocolError::UnexpectedEndOfLine),
        }
    }

    /// Reads a signed 32-bit integer argument.
    fn next_i32(&mut self) -> (res: Result<i32, ProtocolError>)
        ensures
            spec_integer_arg(old(self)@, true, i32::MIN as int, i32::MAX as int) == (match res {
                Ok(v) => Ok(v as int),
                Err(e) => Err(e@),
            }, final(self)@),
    {
        match self.next() {
            Some(t) => match parse_i32(t) {
                Ok(v) => Ok(v),
                Err(e) => Err(ProtocolError::InvalidInteger(e)),
            },
            None => Err(ProtocolError::UnexpectedEndOfLine),
        }
    }

    /// Reads a signed 64-bit integer argument.
    fn next_i64(&mut self) -> (res: Result<i64, ProtocolError>)
        ensures
            spec_integer_arg(old(self)@, true, i64::MIN as int, i64::MAX as int) == (match res {
                Ok(v) => Ok(v as int),
                Err(e) => Err(e@),
            }, final(self)@),
    {
        match self.next() {
            Some(t) => match parse_i64(t) {
                Ok(v) => Ok(v),
                Err(e) => Err(ProtocolError::InvalidInteger(e)),
            },
            None => Err(ProtocolError::UnexpectedEndOfLine),
        }
    }

    /// Reads a time in milliseconds.
    pub fn parse_millis(&mut self) -> (res: Result<u64, ProtocolError>)
        ensures
            spec_parse_millis(old(self)@) == (match res {
                Ok(v) => Ok(v),
                Err(e) => Err(e@),
            }, final(self)@),
    {
        self.next_u64()
    }

    /// Reads the moves that come next, up to the first token that is no move, which
    /// stays unread.
    pub fn parse_moves(&mut self) -> (res: Vec<UciMove>)
        ensures
            (moves_view(res@), final(self)@) == spec_parse_moves(old(self)@),
    {
        let mut moves: Vec<UciMove> = Vec::new();
        loop
            invariant
                spec_parse_moves(old(self)@) == (
                    moves_view(moves@) + spec_parse_moves(self@).0,
                    spec_parse_moves(self@).1,
                ),
            decreases self@.len(),
        {
            match self.peek() {
                Some(m) => match UciMove::parse(m) {
                    Ok(uci) => {
                        proof {
                            lemma_read_rest(self@);
                        }
                        let ghost before = self@;
                        self.next();
                        assert(moves_view(moves@.push(uci)) =~= moves_view(moves@).push(uci@));
                        assert(spec_parse_moves(before).0 =~= seq![uci@] + spec_parse_moves(
                            self@,
                        ).0);
                        moves.push(uci);
                        assert(moves_view(moves@) + spec_parse_moves(self@).0
                            =~= moves_view(moves@).take(moves@.len() - 1) + spec_parse_moves(
                            before,
                        ).0);
                    },
                    Err(_) => {
                        assert(moves_view(moves@) + seq![] =~= moves_view(moves@));
                        return moves;
                    },
                },
                None => {
                    assert(moves_view(moves@) + seq![] =~= moves_view(moves@));
                    return moves;
                },
            }
        }
    }

    /// Reads every token that is left as a move.
    fn parse_all_moves(&mut self) -> (res: Result<Vec<UciMove>, ProtocolError>)
        ensures
            spec_parse_all_moves(old(self)@) == (match res {
                Ok(v) => Ok(moves_view(v@)),
                Err(e) => Err(e@),
            }, final(self)@),
    {
        let mut moves: Vec<UciMove> = Vec::new();
        loop
            invariant
                spec_parse_all_moves(old(self)@) == (match spec_parse_all_moves(self@).0 {
                    Ok(ms) => Ok(moves_view(moves@) + ms),
                    Err(e) => Err(e),
                }, spec_parse_all_moves(self@).1),
            decreases self@.len(),
        {
            let ghost before = self@;
            proof {
                lemma_read_rest(before);
            }
            match self.next() {
                Some(t) => match UciMove::parse(t) {
                    Ok(uci) => {
                        let ghost old_view = moves_view(moves@);
                        assert(moves_view(moves@.push(uci)) =~= moves_view(moves@).push(uci@));
                        moves.push(uci);
                        proof {
                            assert(spec_parse_all_moves(before).1 == spec_parse_all_moves(
                                self@,
                            ).1);
                            match spec_parse_all_moves(self@).0 {
                                Ok(ms) => {
                                    assert(spec_parse_all_moves(before).0 == Ok::<
                                        Seq<Seq<char>>,
                                        ErrorKind,
                                    >(seq![uci@] + ms));
                                    assert(moves_view(moves@) + ms =~= old_view + (seq![uci@]
                                        + ms));
                                },
                                Err(e) => {
                                    assert(spec_parse_all_moves(before).0 == Err::<
                                        Seq<Seq<char>>,
                                        ErrorKind,
                                    >(e));
                                },
                            }
                        }
                    },
                    Err(e) => {
                        return Err(ProtocolError::InvalidMove(e));
                    },
                },
                None => {
                    assert(moves_view(moves@) + seq![] =~= moves_view(moves@));
                    return Ok(moves);
                },
            }
        }
    }

    /// Reads the arguments of a `setoption` command.
    pub fn parse_setoption(&mut self) -> (res: Result<UciIn, ProtocolError>)
        ensures
            spec_parse_setoption(old(self)@) == (match res {
                Ok(v) => Ok(v@),
                Err(e) => Err(e@),
            }, final(self)@),
    {
        match self.next() {
            Some(w) => {
                if !same_str(w, "name") {
                    return Err(ProtocolError::UnexpectedToken);
                }
                let value_stop: [&str; 1] = ["value"];
                assert(words_view(value_stop@) =~= seq!["value"@]);
                let name = match self.until(&value_stop) {
                    Some(n) => n.to_owned(),
                    None => return Err(ProtocolError::UnexpectedEndOfLine),
                };
                let value = match self.next() {
                    Some(_) => {
                        let none: [&str; 0] = [];
                        assert(words_view(none@) =~= Seq::<Seq<char>>::empty());
                        match self.until(&none) {
                            Some(v) => Some(UciOptionValue(v.to_owned())),
                            None => return Err(ProtocolError::UnexpectedEndOfLine),
                        }
                    },
                    None => None,
                };
                Ok(UciIn::Setoption { name: UciOptionName(name), value })
            },
            None => Err(ProtocolError::UnexpectedEndOfLine),
        }
    }

    /// Reads the arguments of a `position` command.
    pub fn parse_position(&mut self) -> (res: Result<UciIn, ProtocolError>)
        ensures
            spec_parse_position(old(self)@) == (match res {
                Ok(v) => Ok(v@),
                Err(e) => Err(e@),
            }, final(self)@),
    {
        let moves_stop: [&str; 1] = ["moves"];
        assert(words_view(moves_stop@) =~= seq!["moves"@]);
        let fen = match self.until(&moves_stop) {
            Some(f) => {
                if same_str(f, "startpos") {
                    None
                } else {
                    match Fen::parse(f) {
                        Ok(fen) => Some(fen),
                        Err(e) => return Err(ProtocolError::InvalidFen(e)),
                    }
                }
            },
            None => return Err(ProtocolError::UnexpectedEndOfLine),
        };
        let moves = match self.next() {
            Some(_) => match self.parse_all_moves() {
                Ok(moves) => moves,
                Err(e) => return Err(e),
            },
            None => {
                let empty: Vec<UciMove> = Vec::new();
                assert(moves_view(empty@) =~= Seq::<Seq<char>>::empty());
                empty
            },
        };
        Ok(UciIn::Position { fen, moves })
    }

    /// Reads a score.
    pub fn parse_score(&mut self) -> (res: Result<Score, ProtocolError>)
        ensures
            spec_parse_score(old(self)@) == (match res {
                Ok(v) => Ok(v),
                Err(e) => Err(e@),
            }, final(self)@),
    {
        let eval = match self.next() {
            Some(w) => {
                if same_str(w, "cp") {
                    match self.next_i64() {
                        Ok(v) => Eval::Cp(v),
                        Err(e) => return Err(e),
                    }
                } else if same_str(w, "mate") {
                    match self.next_i32() {
                        Ok(v) => Eval::Mate(v),
                        Err(e) => return Err(e),
                    }
                } else {
                    return Err(ProtocolError::UnexpectedToken);
                }
            },
            None => return Err(ProtocolError::UnexpectedEndOfLine),
        };
        let ghost after_eval = self@;
        let mut lowerbound = false;
        let mut upperbound = false;
        loop
            invariant
                spec_parse_score(old(self)@) == (Ok::<Score, ErrorKind>(Score {
                    eval,
                    lowerbound: spec_score_bounds(after_eval, false, false).0,
                    upperbound: spec_score_bounds(after_eval, false, false).1,
                }), spec_score_bounds(after_eval, false, false).2),
                spec_score_bounds(after_eval, false, false) == spec_score_bounds(
                    self@,
                    lowerbound,
                    upperbound,
                ),
            decreases self@.len(),
        {
            proof {
                lemma_read_rest(self@);
            }
            match self.peek() {
                Some(t) => {
                    if same_str(t, "lowerbound") {
                        self.next();
                        lowerbound = true;
                    } else if same_str(t, "upperbound") {
                        self.next();
                        upperbound = true;
                    } else {
                        return Ok(Score { eval, lowerbound, upperbound });
                    }
                },
                None => return Ok(Score { eval, lowerbound, upperbound }),
            }
        }
    }

    /// Reads the arguments of a `go` command.
    pub fn parse_go(&mut self) -> (res: Result<UciIn, ProtocolError>)
        ensures
            spec_parse_go(old(self)@) == (match res {
                Ok(v) => Ok(v@),
                Err(e) => Err(e@),
            }, final(self)@),
    {
        let mut searchmoves: Option<Vec<UciMove>> = None;
        let mut ponder: bool = false;
        let mut wtime: Option<u64> = None;
        let mut btime: Option<u64> = None;
        let mut winc: Option<u64> = None;
        let mut binc: Option<u64> = None;
        let mut movestogo: Option<u32> = None;
        let mut depth: Option<u32> = None;
        let mut nodes: Option<u64> = None;
        let mut mate: Option<u32> = None;
        let mut movetime: Option<u64> = None;
        let mut infinite: bool = false;
        loop
            invariant
                spec_go_args(old(self)@, go_start()) == spec_go_args(self@, SpecGo {
                    searchmoves: option_moves_view(searchmoves),
                    ponder: ponder,
                    wtime: wtime,
                    btime: btime,
                    winc: winc,
                    binc: binc,
                    movestogo: movestogo,
                    depth: depth,
                    nodes: nodes,
                    mate: mate,
                    movetime: movetime,
                    infinite: infinite,
                }),
            decreases self@.len(),
        {
            let ghost before = self@;
            proof {
                lemma_read_rest(before);
                lemma_read_rest(spec_read(before).1);
                lemma_parse_moves_rest(spec_read(before).1);
            }
            match self.next() {
                Some(w) => {
                    if same_str(w, "ponder") {
                        ponder = true;
                    } else if same_str(w, "infinite") {
                        infinite = true;
                    } else if same_str(w, "movestogo") {
                        match self.next_u32() {
                            Ok(v) => movestogo = Some(v),
                            Err(e) => return Err(e),
                        }
                    } else if same_str(w, "depth") {
                        match self.next_u32() {
                            Ok(v) => depth = Some(v),
                            Err(e) => return Err(e),
                        }
                    } else if same_str(w, "nodes") {
                        match self.next_u64() {
                            Ok(v) => nodes = Some(v),
                            Err(e) => return Err(e),
                        }
                    } else if same_str(w, "mate") {
                        match self.next_u32() {
                            Ok(v) => mate = Some(v),
                            Err(e) => return Err(e),
                        }
                    } else if same_str(w, "movetime") {
                        match self.parse_millis() {
                            Ok(v) => movetime = Some(v),
                            Err(e) => return Err(e),
                        }
                    } else if same_str(w, "wtime") {
                        match self.parse_millis() {
                            Ok(v) => wtime = Some(v),
                            Err(e) => return Err(e),
                        }
                    } else if same_str(w, "btime") {
                        match self.parse_millis() {
                            Ok(v) => btime = Some(v),
                            Err(e) => return Err(e),
                        }
                    } else if same_str(w, "winc") {
                        match self.parse_millis() {
                            Ok(v) => winc = Some(v),
                            Err(e) => return Err(e),
                        }
                    } else if same_str(w, "binc") {
                        match self.parse_millis() {
                            Ok(v) => binc = Some(v),
                            Err(e) => return Err(e),
                        }
                    } else if same_str(w, "searchmoves") {
                        searchmoves = Some(self.parse_moves());
                    } else {
                        return Err(ProtocolError::UnexpectedToken);
                    }
                },
                None => {
                    return Ok(
                    UciIn::Go {
                        searchmoves,
                        ponder,
                        wtime,
                        btime,
                        winc,
                        binc,
                        movestogo,
                        depth,
                        nodes,
                        mate,
                        movetime,
                        infinite,
                    });
                },
            }
        }
    }

    /// Reads a command from what is left of the line.
    pub fn parse_in(&mut self) -> (res: Result<Option<UciIn>, ProtocolError>)
        ensures
            spec_parse_in(old(self)@) == (in_result_view(res), final(self)@),
    {
        match self.next() {
            Some(w) => {
                if same_str(w, "uci") {
                    match self.end() {
                        Ok(()) => Ok(Some(UciIn::Uci)),
                        Err(e) => Err(e),
                    }
                } else if same_str(w, "isready") {
                    match self.end() {
                        Ok(()) => Ok(Some(UciIn::Isready)),
                        Err(e) => Err(e),
                    }
                } else if same_str(w, "ucinewgame") {
                    match self.end() {
                        Ok(()) => Ok(Some(UciIn::Ucinewgame)),
                        Err(e) => Err(e),
                    }
                } else if same_str(w, "stop") {
                    match self.end() {
                        Ok(()) => Ok(Some(UciIn::Stop)),
                        Err(e) => Err(e),
                    }
                } else if same_str(w, "ponderhit") {
                    match self.end() {
                        Ok(()) => Ok(Some(UciIn::Ponderhit)),
                        Err(e) => Err(e),
                    }
                } else if same_str(w, "setoption") {
                    match self.parse_setoption() {
                        Ok(v) => Ok(Some(v)),
                        Err(e) => Err(e),
                    }
                } else if same_str(w, "position") {
                    match self.parse_position() {
                        Ok(v) => Ok(Some(v)),
                        Err(e) => Err(e),
                    }
                } else if same_str(w, "go") {
                    match self.parse_go() {
                        Ok(v) => Ok(Some(v)),
                        Err(e) => Err(e),
                    }
                } else {
                    Err(ProtocolError::UnexpectedToken)
                }
            },
            None => Ok(None),
        }
    }

    /// Reads the arguments of a `spin` option.
    fn parse_spin(&mut self) -> (res: Result<UciOption, ProtocolError>)
        ensures
            ({
                let (a, r) = spec_spin_args(old(self)@, None, None, None);
                final(self)@ == r && match res {
                    Ok(o) => a matches Ok((Some(d), Some(mn), Some(mx))) && o@
                        == (SpecUciOption::Spin { default: d, min: mn, max: mx }),
                    Err(e) => match a {
                        Err(k) => e@ == k,
                        Ok(_) => e@ == ErrorKind::UnexpectedEndOfLine && !(a matches Ok(
                            (Some(_), Some(_), Some(_)),
                        )),
                    },
                }
            }),
    {
        let mut default: Option<i64> = None;
        let mut min: Option<i64> = None;
        let mut max: Option<i64> = None;
        loop
            invariant_except_break
                spec_spin_args(old(self)@, None, None, None) == spec_spin_args(
                    self@,
                    default,
                    min,
                    max,
                ),
            ensures
                spec_spin_args(old(self)@, None, None, None) == (Ok::<
                    (Option<i64>, Option<i64>, Option<i64>),
                    ErrorKind,
                >((default, min, max)), self@),
            decreases self@.len(),
        {
            let ghost before = self@;
            proof {
                lemma_read_rest(before);
                lemma_read_rest(spec_read(before).1);
            }
            match self.next() {
                Some(w) => {
                    if same_str(w, "default") {
                        match self.next_i64() {
                            Ok(v) => default = Some(v),
                            Err(e) => return Err(e),
                        }
                    } else if same_str(w, "min") {
                        match self.next_i64() {
                            Ok(v) => min = Some(v),
                            Err(e) => return Err(e),
                        }
                    } else if same_str(w, "max") {
                        match self.next_i64() {
                            Ok(v) => max = Some(v),
                            Err(e) => return Err(e),
                        }
                    } else {
                        return Err(ProtocolError::UnexpectedToken);
                    }
                },
                None => {
                    break ;
                },
            }
        }
        let default = match default {
            Some(v) => v,
            None => return Err(ProtocolError::UnexpectedEndOfLine),
        };
        let min = match min {
            Some(v) => v,
            None => return Err(ProtocolError::UnexpectedEndOfLine),
        };
        let max = match max {
            Some(v) => v,
            None => return Err(ProtocolError::UnexpectedEndOfLine),
        };
        Ok(UciOption::Spin { default, min, max })
    }

    /// Reads the arguments of a `combo` option.
    fn parse_combo(&mut self) -> (res: Result<UciOption, ProtocolError>)
        ensures
            ({
                let (a, r) = spec_combo_args(old(self)@, None, seq![]);
                final(self)@ == r && match res {
                    Ok(o) => a matches Ok((Some(d), var)) && o@ == (SpecUciOption::Combo {
                        default: d,
                        var,
                    }),
                    Err(e) => match a {
                        Err(k) => e@ == k,
                        Ok(_) => e@ == ErrorKind::UnexpectedEndOfLine && a matches Ok((None, _)),
                    },
                }
            }),
    {
        let stops: [&str; 2] = ["default", "var"];
        assert(words_view(stops@) =~= combo_stops());
        let mut default: Option<String> = None;
        let mut var: Vec<String> = Vec::new();
        assert(strings_view(var@) =~= Seq::<Seq<char>>::empty());
        loop
            invariant_except_break
                words_view(stops@) == combo_stops(),
                spec_combo_args(old(self)@, None, seq![]) == spec_combo_args(
                    self@,
                    option_view(default),
                    strings_view(var@),
                ),
            ensures
                spec_combo_args(old(self)@, None, seq![]) == (Ok::<
                    (Option<Seq<char>>, Seq<Seq<char>>),
                    ErrorKind,
                >((option_view(default), strings_view(var@))), self@),
            decreases self@.len(),
        {
            let ghost before = self@;
            proof {
                lemma_read_rest(before);
                lemma_read_until_rest(spec_read(before).1, combo_stops());
            }
            match self.next() {
                Some(w) => {
                    if same_str(w, "default") {
                        match self.until(&stops) {
                            Some(v) => default = Some(v.to_owned()),
                            None => return Err(ProtocolError::UnexpectedEndOfLine),
                        }
                    } else if same_str(w, "var") {
                        match self.until(&stops) {
                            Some(v) => {
                                let v = v.to_owned();
                                assert(strings_view(var@.push(v)) =~= strings_view(var@).push(
                                    v@,
                                ));
                                var.push(v);
                            },
                            None => return Err(ProtocolError::UnexpectedEndOfLine),
                        }
                    } else {
                        return Err(ProtocolError::UnexpectedToken);
                    }
                },
                None => {
                    break ;
                },
            }
        }
        match default {
            Some(default) => Ok(UciOption::Combo { default, var }),
            None => Err(ProtocolError::UnexpectedEndOfLine),
        }
    }

    /// Reads the kind of an option and its arguments.
    fn parse_option_kind(&mut self) -> (res: Result<UciOption, ProtocolError>)
        ensures
            spec_option_kind(old(self)@) == (match res {
                Ok(v) => Ok(v@),
                Err(e) => Err(e@),
            }, final(self)@),
    {
        match self.next() {
            Some(kind) => {
                if same_str(kind, "check") {
                    match self.next() {
                        Some(w) => {
                            if same_str(w, "default") {
                                match self.next() {
                                    Some(b) => {
                                        if same_str(b, "true") {
                                            Ok(UciOption::Check { default: true })
                                        } else if same_str(b, "false") {
                                            Ok(UciOption::Check { default: false })
                                        } else {
                                            Err(ProtocolError::UnexpectedToken)
                                        }
                                    },
                                    None => Err(ProtocolError::UnexpectedEndOfLine),
                                }
                            } else {
                                Err(ProtocolError::UnexpectedToken)
                            }
                        },
                        None => Err(ProtocolError::UnexpectedEndOfLine),
                    }
                } else if same_str(kind, "spin") {
                    self.parse_spin()
                } else if same_str(kind, "combo") {
                    self.parse_combo()
                } else if same_str(kind, "button") {
                    match self.end() {
                        Ok(()) => Ok(UciOption::Button),
                        Err(e) => Err(e),
                    }
                } else if same_str(kind, "string") {
                    match self.next() {
                        Some(w) => {
                            if same_str(w, "default") {
                                let none: [&str; 0] = [];
                                assert(words_view(none@) =~= Seq::<Seq<char>>::empty());
                                let default = match self.until(&none) {
                                    Some(v) => v.to_owned(),
                                    None => String::new(),
                                };
                                Ok(UciOption::String { default })
                            } else {
                                Err(ProtocolError::UnexpectedToken)
                            }
                        },
                        None => Err(ProtocolError::UnexpectedEndOfLine),
                    }
                } else {
                    Err(ProtocolError::UnexpectedToken)
                }
            },
            None => Err(ProtocolError::UnexpectedEndOfLine),
        }
    }

    /// Reads the arguments of an `option` answer.
    pub fn parse_option(&mut self) -> (res: Result<UciOut, ProtocolError>)
        ensures
            spec_parse_option(old(self)@) == (match res {
                Ok(v) => Ok(v@),
                Err(e) => Err(e@),
            }, final(self)@),
    {
        let name = match self.next() {
            Some(w) => {
                if !same_str(w, "name") {
                    return Err(ProtocolError::UnexpectedToken);
                }
                let type_stop: [&str; 1] = ["type"];
                assert(words_view(type_stop@) =~= seq!["type"@]);
                match self.until(&type_stop) {
                    Some(n) => UciOptionName(n.to_owned()),
                    None => return Err(ProtocolError::UnexpectedEndOfLine),
                }
            },
            None => return Err(ProtocolError::UnexpectedEndOfLine),
        };
        self.next();
        match self.parse_option_kind() {
            Ok(option) => Ok(UciOut::Option { name, option }),
            Err(e) => Err(e),
        }
    }

    /// Reads a move argument.
    fn next_move(&mut self) -> (res: Result<UciMove, ProtocolError>)
        ensures
            spec_move_arg(old(self)@) == (match res {
                Ok(m) => Ok(m@),
                Err(e) => Err(e@),
            }, final(self)@),
    {
        match self.next() {
            Some(t) => match UciMove::parse(t) {
                Ok(m) => Ok(m),
                Err(e) => Err(ProtocolError::InvalidMove(e)),
            },
            None => Err(ProtocolError::UnexpectedEndOfLine),
        }
    }

    /// Reads the fields of an `info` answer.
    #[verifier::rlimit(50)]
    pub fn parse_info(&mut self) -> (res: Result<UciOut, ProtocolError>)
        ensures
            spec_parse_info(old(self)@) == (match res {
                Ok(v) => Ok(v@),
                Err(e) => Err(e@),
            }, final(self)@),
    {
        let mut multipv: Option<MultiPv> = None;
        let mut depth: Option<u32> = None;
        let mut seldepth: Option<u32> = None;
        let mut time: Option<u64> = None;
        let mut nodes: Option<u64> = None;
        let mut pv: Option<Vec<UciMove>> = None;
        let mut score: Option<Score> = None;
        let mut currmove: Option<UciMove> = None;
        let mut currmovenumber: Option<u32> = None;
        let mut hashfull: Option<u32> = None;
        let mut nps: Option<u64> = None;
        let mut tbhits: Option<u64> = None;
        let mut sbhits: Option<u64> = None;
        let mut cpuload: Option<u32> = None;
        let mut refutation = Refutations::new();
        let mut currline: HashMap<u32, Vec<UciMove>> = HashMap::new();
        let mut string: Option<String> = None;
        assert(currline_view(currline@) =~= Map::empty());
        loop
            invariant
                spec_info_args(old(self)@, info_start()) == spec_info_args(self@, SpecInfo {
                    multipv: option_view(multipv),
                    depth: depth,
                    seldepth: seldepth,
                    time: time,
                    nodes: nodes,
                    pv: option_moves_view(pv),
                    score: score,
                    currmove: option_view(currmove),
                    currmovenumber: currmovenumber,
                    hashfull: hashfull,
                    nps: nps,
                    tbhits: tbhits,
                    sbhits: sbhits,
                    cpuload: cpuload,
                    refutation: refutation@,
                    currline: currline_view(currline@),
                    string: option_view(string),
                }),
            decreases self@.len(),
        {
            let ghost before = self@;
            proof {
                lemma_read_rest(before);
                let r = spec_read(before).1;
                lemma_read_rest(r);
                lemma_parse_moves_rest(r);
                lemma_parse_moves_rest(spec_read(r).1);
                lemma_read_until_rest(r, seq![]);
                lemma_parse_score_rest(r);
            }
            match self.next() {
                Some(w) => {
                    if same_str(w, "multipv") {
                        match self.next_nonzero_u32() {
                            Ok(v) => multipv = MultiPv::new(v),
                            Err(e) => return Err(e),
                        }
                    } else if same_str(w, "depth") {
                        match self.next_u32() {
                            Ok(v) => depth = Some(v),
                            Err(e) => return Err(e),
                        }
                    } else if same_str(w, "seldepth") {
                        match self.next_u32() {
                            Ok(v) => seldepth = Some(v),
                            Err(e) => return Err(e),
                        }
                    } else if same_str(w, "time") {
                        match self.next_u64() {
                            Ok(v) => time = Some(v),
                            Err(e) => return Err(e),
                        }
                    } else if same_str(w, "nodes") {
                        match self.next_u64() {
                            Ok(v) => nodes = Some(v),
                            Err(e) => return Err(e),
                        }
                    } else if same_str(w, "pv") {
                        pv = Some(self.parse_moves());
                    } else if same_str(w, "score") {
                        match self.parse_score() {
                            Ok(v) => score = Some(v),
                            Err(e) => return Err(e),
                        }
                    } else if same_str(w, "currmove") {
                        match self.next_move() {
                            Ok(v) => currmove = Some(v),
                            Err(e) => return Err(e),
                        }
                    } else if same_str(w, "currmovenumber") {
                        match self.next_u32() {
                            Ok(v) => currmovenumber = Some(v),
                            Err(e) => return Err(e),
                        }
                    } else if same_str(w, "hashfull") {
                        match self.next_u32() {
                            Ok(v) => hashfull = Some(v),
                            Err(e) => return Err(e),
                        }
                    } else if same_str(w, "nps") {
                        match self.next_u64() {
                            Ok(v) => nps = Some(v),
                            Err(e) => return Err(e),
                        }
                    } else if same_str(w, "tbhits") {
                        match self.next_u64() {
                            Ok(v) => tbhits = Some(v),
                            Err(e) => return Err(e),
                        }
                    } else if same_str(w, "sbhits") {
                        match self.next_u64() {
                            Ok(v) => sbhits = Some(v),
                            Err(e) => return Err(e),
                        }
                    } else if same_str(w, "cpuload") {
                        match self.next_u32() {
                            Ok(v) => cpuload = Some(v),
                            Err(e) => return Err(e),
                        }
                    } else if same_str(w, "refutation") {
                        match self.next_move() {
                            Ok(k) => {
                                let ms = self.parse_moves();
                                refutation.insert(k, ms);
                            },
                            Err(e) => return Err(e),
                        }
                    } else if same_str(w, "currline") {
                        match self.next_u32() {
                            Ok(k) => {
                                let ms = self.parse_moves();
                                let ghost before_lines = currline_view(currline@);
                                let ghost line = moves_view(ms@);
                                currline.insert(k, ms);
                                assert(currline_view(currline@) =~= before_lines.insert(k, line));
                            },
                            Err(e) => return Err(e),
                        }
                    } else if same_str(w, "string") {
                        let none: [&str; 0] = [];
                        assert(words_view(none@) =~= Seq::<Seq<char>>::empty());
                        string = Some(
                            match self.until(&none) {
                                Some(v) => v.to_owned(),
                                None => String::new(),
                            },
                        );
                    } else {
                        return Err(ProtocolError::UnexpectedToken);
                    }
                },
                None => {
                    return Ok(
                    UciOut::Info {
                        multipv,
                        depth,
                        seldepth,
                        time,
                        nodes,
                        pv,
                        score,
                        currmove,
                        currmovenumber,
                        hashfull,
                        nps,
                        tbhits,
                        sbhits,
                        cpuload,
                        refutation,
                        currline,
                        string,
                    });
                },
            }
        }
    }

    /// Reads an answer from what is left of the line.
    pub fn parse_out(&mut self) -> (res: Result<Option<UciOut>, ProtocolError>)
        ensures
            spec_parse_out(old(self)@) == (out_result_view(res), final(self)@),
    {
        match self.next() {
            Some(w) => {
                if same_str(w, "id") {
                    match self.next() {
                        Some(w2) => {
                            let name = same_str(w2, "name");
                            if name || same_str(w2, "author") {
                                let none: [&str; 0] = [];
                                assert(words_view(none@) =~= Seq::<Seq<char>>::empty());
                                match self.until(&none) {
                                    Some(v) => {
                                        let v = v.to_owned();
                                        if name {
                                            Ok(Some(UciOut::IdName(v)))
                                        } else {
                                            Ok(Some(UciOut::IdAuthor(v)))
                                        }
                                    },
                                    None => Err(ProtocolError::UnexpectedEndOfLine),
                                }
                            } else {
                                Err(ProtocolError::UnexpectedToken)
                            }
                        },
                        None => Err(ProtocolError::UnexpectedEndOfLine),
                    }
                } else if same_str(w, "uciok") {
                    Ok(Some(UciOut::Uciok))
                } else if same_str(w, "readyok") {
                    Ok(Some(UciOut::Readyok))
                } else if same_str(w, "bestmove") {
                    match self.parse_bestmove() {
                        Ok(v) => Ok(Some(v)),
                        Err(e) => Err(e),
                    }
                } else if same_str(w, "info") {
                    match self.parse_info() {
                        Ok(v) => Ok(Some(v)),
                        Err(e) => Err(e),
                    }
                } else if same_str(w, "option") {
                    match self.parse_option() {
                        Ok(v) => Ok(Some(v)),
                        Err(e) => Err(e),
                    }
                } else {
                    Err(ProtocolError::UnexpectedToken)
                }
            },
            None => Ok(None),
        }
    }

    /// Reads an optional move, written `(none)` where there is none.
    fn optional_move(t: Option<&str>) -> (res: Result<Option<UciMove>, ProtocolError>)
        ensures
            spec_optional_move(token_view(t)) == match res {
                Ok(m) => Ok(option_view(m)),
                Err(e) => Err(e@),
            },
    {
        match t {
            Some(w) => {
                if same_str(w, "(none)") {
                    Ok(None)
                } else {
                    match UciMove::parse(w) {
                        Ok(m) => Ok(Some(m)),
                        Err(e) => Err(ProtocolError::InvalidMove(e)),
                    }
                }
            },
            None => Ok(None),
        }
    }

    /// Reads the arguments of a `bestmove` answer.
    pub fn parse_bestmove(&mut self) -> (res: Result<UciOut, ProtocolError>)
        ensures
            spec_parse_bestmove(old(self)@) == (match res {
                Ok(v) => Ok(v@),
                Err(e) => Err(e@),
            }, final(self)@),
    {
        let m = match Self::optional_move(self.next()) {
            Ok(m) => m,
            Err(e) => return Err(e),
        };
        let ponder = match self.next() {
            Some(w) => {
                if same_str(w, "ponder") {
                    match Self::optional_move(self.next()) {
                        Ok(p) => p,
                        Err(e) => return Err(e),
                    }
                } else {
                    return Err(ProtocolError::UnexpectedToken);
                }
            },
            None => None,
        };
        Ok(UciOut::Bestmove { m, ponder })
    }
}


impl UciIn {
    /// Reads a command from the line `s`; `None` where the line holds only separators.
    pub fn from_line(s: &str) -> (res: Result<Option<UciIn>, ProtocolError>)
        ensures
            in_result_view(res) == spec_uci_in_from_line(s@),
    {
        match Parser::new(s) {
            Ok(mut p) => p.parse_in(),
            Err(e) => Err(e),
        }
    }
}


impl UciOut {
    /// Reads an answer from the line `s`; `None` where the line holds only separators.
    pub fn from_line(s: &str) -> (res: Result<Option<UciOut>, ProtocolError>)
        ensures
            out_result_view(res) == spec_uci_out_from_line(s@),
    {
        match Parser::new(s) {
            Ok(mut p) => p.parse_out(),
            Err(e) => Err(e),
        }
    }
}

} // verus!
