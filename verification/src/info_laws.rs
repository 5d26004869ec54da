//! What holds of `info` answers: their written fields read back.

use vstd::prelude::*;
use crate::chess::{is_file_char, is_move_text, is_rank_char, lemma_move_token_shape, uci_move_text};
use crate::laws::first_token_among;
use crate::line_break::has_line_break;
use crate::numbers::{
    decimal, lemma_decimal_is_word, lemma_decimal_reads_back_from, lemma_signed_decimal_is_word,
    lemma_signed_decimal_reads_back, signed_decimal,
};
use crate::parser::{
    info_start, lemma_parse_moves_rest, lemma_parse_score_rest,
    spec_info_args, spec_integer_arg, spec_move_arg, spec_parse_moves, spec_parse_score,
    spec_score_bounds,
};
use crate::readback::{
    all_move_texts, lemma_decimal_no_line_break, lemma_line_break_concat,
    lemma_move_no_line_break, lemma_parse_moves_render, lemma_read_until_blank,
    lemma_signed_decimal_no_line_break, lemma_render_moves_ends_token,
    lemma_render_moves_no_line_break, no_move_follows,
};
use crate::render::{
    nat_of_u32, nat_of_u64, render_currlines, render_eval, render_flag, render_info,
    lists_lines, render_moves, render_number, render_refutations, render_score, render_text,
};
use crate::text_lemmas::{ends_token, lemma_read_blank, lemma_read_rest_of_line, lemma_read_word};
use crate::tokens::{
    is_separator_char, lemma_read_rest, lemma_read_until_rest, spec_read, spec_read_until,
};
use crate::types::{
    distinct_keys, is_first_key, lemma_line_insert_distinct, line_insert, ErrorKind, Eval, Score,
    SpecInfo,
};

verus! {


/// Whether `s` does not start with a `lowerbound` or `upperbound` token.
proof fn lemma_info_words_no_bounds(w: Seq<char>)
    requires
        info_words().contains(w),
    ensures
        w != "lowerbound"@,
        w != "upperbound"@,
{
    reveal_strlit("lowerbound");
    reveal_strlit("upperbound");
    reveal_strlit("cpuload");
    reveal_strlit("currline");
    reveal_strlit("currmove");
    reveal_strlit("currmovenumber");
    reveal_strlit("hashfull");
    reveal_strlit("nps");
    reveal_strlit("refutation");
    reveal_strlit("sbhits");
    reveal_strlit("score");
    reveal_strlit("string");
    reveal_strlit("tbhits");
    let j = choose|j: int| 0 <= j < info_words().len() && info_words()[j] == w;
    assert("score"@.len() != "lowerbound"@.len());
    assert("score"@ != "lowerbound"@);
    assert("score"@.len() != "upperbound"@.len());
    assert("score"@ != "upperbound"@);
    assert("currmove"@.len() != "lowerbound"@.len());
    assert("currmove"@ != "lowerbound"@);
    assert("currmove"@.len() != "upperbound"@.len());
    assert("currmove"@ != "upperbound"@);
    assert("currmovenumber"@.len() != "lowerbound"@.len());
    assert("currmovenumber"@ != "lowerbound"@);
    assert("currmovenumber"@.len() != "upperbound"@.len());
    assert("currmovenumber"@ != "upperbound"@);
    assert("hashfull"@.len() != "lowerbound"@.len());
    assert("hashfull"@ != "lowerbound"@);
    assert("hashfull"@.len() != "upperbound"@.len());
    assert("hashfull"@ != "upperbound"@);
    assert("nps"@.len() != "lowerbound"@.len());
    assert("nps"@ != "lowerbound"@);
    assert("nps"@.len() != "upperbound"@.len());
    assert("nps"@ != "upperbound"@);
    assert("tbhits"@.len() != "lowerbound"@.len());
    assert("tbhits"@ != "lowerbound"@);
    assert("tbhits"@.len() != "upperbound"@.len());
    assert("tbhits"@ != "upperbound"@);
    assert("sbhits"@.len() != "lowerbound"@.len());
    assert("sbhits"@ != "lowerbound"@);
    assert("sbhits"@.len() != "upperbound"@.len());
    assert("sbhits"@ != "upperbound"@);
    assert("cpuload"@.len() != "lowerbound"@.len());
    assert("cpuload"@ != "lowerbound"@);
    assert("cpuload"@.len() != "upperbound"@.len());
    assert("cpuload"@ != "upperbound"@);
    assert("refutation"@[0] != "lowerbound"@[0]);
    assert("refutation"@ != "lowerbound"@);
    assert("refutation"@[0] != "upperbound"@[0]);
    assert("refutation"@ != "upperbound"@);
    assert("currline"@.len() != "lowerbound"@.len());
    assert("currline"@ != "lowerbound"@);
    assert("currline"@.len() != "upperbound"@.len());
    assert("currline"@ != "upperbound"@);
    assert("string"@.len() != "lowerbound"@.len());
    assert("string"@ != "lowerbound"@);
    assert("string"@.len() != "upperbound"@.len());
    assert("string"@ != "upperbound"@);
}

/// Written bounds of a score, then what may follow them in an `info` answer, read back
/// as those bounds.
proof fn lemma_bounds_read_back(lower: bool, upper: bool, r: Seq<char>)
    requires
        ends_token(r),
        first_token_among(r, info_words()),
    ensures
        spec_score_bounds(
            render_flag(" lowerbound"@, lower) + render_flag(" upperbound"@, upper) + r,
            false,
            false,
        ) == (lower, upper, r),
        ends_token(render_flag(" lowerbound"@, lower) + render_flag(" upperbound"@, upper) + r),
        !has_line_break(render_flag(" lowerbound"@, lower) + render_flag(" upperbound"@, upper)),
{
    reveal_strlit("lowerbound");
    reveal_strlit("upperbound");
    reveal_strlit(" lowerbound");
    reveal_strlit(" upperbound");
    assert("upperbound"@[0] != "lowerbound"@[0]);
    assert("upperbound"@ != "lowerbound"@);
    let u = render_flag(" upperbound"@, upper);
    let l = render_flag(" lowerbound"@, lower);
    if let Some(w) = spec_read(r).0 {
        lemma_info_words_no_bounds(w);
    }
    let ru = u + r;
    if upper {
        assert(" upperbound"@ =~= seq![' '] + "upperbound"@);
        lemma_read_word(seq![' '], "upperbound"@, r);
        assert(spec_score_bounds(ru, lower, false) == spec_score_bounds(r, lower, true));
        assert(!has_line_break(" upperbound"@));
    } else {
        assert(ru =~= r);
    }
    assert(spec_score_bounds(ru, lower, false) == (lower, upper, r));
    assert(ends_token(ru));
    let rl = l + ru;
    if lower {
        assert(" lowerbound"@ =~= seq![' '] + "lowerbound"@);
        lemma_read_word(seq![' '], "lowerbound"@, ru);
        assert(!has_line_break(" lowerbound"@));
    } else {
        assert(rl =~= ru);
    }
    assert(l + u + r =~= rl);
    assert(spec_score_bounds(rl, false, false) == (lower, upper, r));
    lemma_line_break_concat(l, u);
}

/// A written score, then what may follow it in an `info` answer, reads back as that
/// score.
#[verifier::rlimit(30)]
proof fn lemma_score_reads_back(sc: Score, r: Seq<char>)
    requires
        ends_token(r),
        first_token_among(r, info_words()),
    ensures
        spec_parse_score(seq![' '] + render_score(sc) + r) == (Ok::<Score, ErrorKind>(sc), r),
        !has_line_break(render_score(sc)),
{
    reveal_strlit("cp");
    reveal_strlit("mate");
    reveal_strlit("cp ");
    reveal_strlit("mate ");
    assert("mate"@.len() != "cp"@.len());
    assert("mate"@ != "cp"@);
    let b = render_flag(" lowerbound"@, sc.lowerbound) + render_flag(" upperbound"@, sc.upperbound);
    lemma_bounds_read_back(sc.lowerbound, sc.upperbound, r);
    let rl = b + r;
    let e = render_eval(sc.eval);
    assert(render_score(sc) =~= e + b);
    assert(seq![' '] + render_score(sc) + r =~= seq![' '] + e + rl);
    match sc.eval {
        Eval::Cp(v) => {
            let d = signed_decimal(v as int);
            lemma_signed_decimal_is_word(v as int);
            lemma_signed_decimal_reads_back(v as int, i64::MIN as int, i64::MAX as int);
            assert(seq![' '] + e + rl =~= seq![' '] + "cp"@ + (seq![' '] + d + rl));
            lemma_read_word(seq![' '], "cp"@, seq![' '] + d + rl);
            lemma_read_word(seq![' '], d, rl);
            assert(!has_line_break("cp "@));
            lemma_signed_decimal_no_line_break(v as int);
            lemma_line_break_concat("cp "@, d);
        },
        Eval::Mate(v) => {
            let d = signed_decimal(v as int);
            lemma_signed_decimal_is_word(v as int);
            lemma_signed_decimal_reads_back(v as int, i32::MIN as int, i32::MAX as int);
            assert(seq![' '] + e + rl =~= seq![' '] + "mate"@ + (seq![' '] + d + rl));
            lemma_read_word(seq![' '], "mate"@, seq![' '] + d + rl);
            lemma_read_word(seq![' '], d, rl);
            assert(!has_line_break("mate "@));
            lemma_signed_decimal_no_line_break(v as int);
            lemma_line_break_concat("mate "@, d);
        },
    }
    lemma_line_break_concat(e, b);
}

/// The words that may follow the moves of `pv` in a written `info` answer.
pub open spec fn info_words() -> Seq<Seq<char>> {
    seq!["score"@, "currmove"@, "currmovenumber"@, "hashfull"@, "nps"@, "tbhits"@, "sbhits"@, "cpuload"@, "refutation"@, "currline"@, "string"@]
}

/// Whether `shakmaty` reads none of `info_words()` as a move.
pub open spec fn info_words_are_no_moves() -> bool {
    forall|i: int| 0 <= i < info_words().len() ==> uci_move_text(#[trigger] info_words()[i]) is None
}

/// `shakmaty` reads none of `info_words()` as a move.
pub proof fn lemma_info_words_are_no_moves()
    ensures
        info_words_are_no_moves(),
{
    reveal_strlit("cpuload");
    reveal_strlit("currline");
    reveal_strlit("currmove");
    reveal_strlit("currmovenumber");
    reveal_strlit("hashfull");
    reveal_strlit("nps");
    reveal_strlit("refutation");
    reveal_strlit("sbhits");
    reveal_strlit("score");
    reveal_strlit("string");
    reveal_strlit("tbhits");
    assert forall|i: int| 0 <= i < info_words().len() implies uci_move_text(#[trigger] info_words()[i]) is None by {
        let w = info_words()[i];
        lemma_move_token_shape(w);
        if i == 0 {
            assert(w == "score"@);
            assert(w[0] != '0');
            assert(!(is_file_char(w[2]) && is_rank_char(w[3])));
        } else if i == 1 {
            assert(w == "currmove"@);
            assert(w.len() == 8);
        } else if i == 2 {
            assert(w == "currmovenumber"@);
            assert(w.len() == 14);
        } else if i == 3 {
            assert(w == "hashfull"@);
            assert(w.len() == 8);
        } else if i == 4 {
            assert(w == "nps"@);
            assert(w.len() == 3);
        } else if i == 5 {
            assert(w == "tbhits"@);
            assert(w.len() == 6);
        } else if i == 6 {
            assert(w == "sbhits"@);
            assert(w.len() == 6);
        } else if i == 7 {
            assert(w == "cpuload"@);
            assert(w.len() == 7);
        } else if i == 8 {
            assert(w == "refutation"@);
            assert(w.len() == 10);
        } else if i == 9 {
            assert(w == "currline"@);
            assert(w.len() == 8);
        } else if i == 10 {
            assert(w == "string"@);
            assert(w.len() == 6);
        }
    }
}


/// The fields of a written `info` answer, each after a space.
pub open spec fn info_pieces(i: SpecInfo, lines: Seq<(u32, Seq<Seq<char>>)>) -> Seq<char> {
    (render_number(" multipv "@, nat_of_u32(i.multipv)) + (render_number(" depth "@, nat_of_u32(i.depth)) + (render_number(" seldepth "@, nat_of_u32(i.seldepth)) + (render_number(" time "@, nat_of_u64(i.time)) + (render_number(" nodes "@, nat_of_u64(i.nodes)) + ((match i.pv { Some(ms) => " pv"@ + render_moves(ms), None => seq![] }) + ((match i.score { Some(s) => " score "@ + render_score(s), None => seq![] }) + (render_text(" currmove "@, i.currmove) + (render_number(" currmovenumber "@, nat_of_u32(i.currmovenumber)) + (render_number(" hashfull "@, nat_of_u32(i.hashfull)) + (render_number(" nps "@, nat_of_u64(i.nps)) + (render_number(" tbhits "@, nat_of_u64(i.tbhits)) + (render_number(" sbhits "@, nat_of_u64(i.sbhits)) + (render_number(" cpuload "@, nat_of_u32(i.cpuload)) + (render_refutations(i.refutation) + (render_currlines(lines) + (render_text(" string "@, i.string) + Seq::<char>::empty())))))))))))))))))
}

/// A written `multipv` field of an `info` answer, then what may follow it, reads back as that
/// field.
proof fn lemma_info_piece_multipv(v: Option<u32>, r: Seq<char>, acc: SpecInfo)
    requires
        ends_token(r),
        acc.multipv is None,
        v matches Some(n) ==> n >= 1,
    ensures
        ends_token(render_number(" multipv "@, nat_of_u32(v)) + r),
        !has_line_break(r) ==> !has_line_break(render_number(" multipv "@, nat_of_u32(v)) + r),
        spec_info_args(render_number(" multipv "@, nat_of_u32(v)) + r, acc) == spec_info_args(r, SpecInfo { multipv: v, ..acc }),
{
    reveal_strlit(" multipv ");
    reveal_strlit("multipv");
    match v {
        Some(n) => {
            let d = decimal(n as nat);
            lemma_decimal_reads_back_from(n as nat, 1, u32::MAX as int);
            lemma_decimal_is_word(n as nat);
            let s = " multipv "@ + d + r;
            assert(" multipv "@ =~= seq![' '] + "multipv"@ + seq![' ']);
            assert(s =~= seq![' '] + "multipv"@ + (seq![' '] + d + r));
            lemma_read_word(seq![' '], "multipv"@, seq![' '] + d + r);
            lemma_read_word(seq![' '], d, r);
            assert(!has_line_break(" multipv "@));
            lemma_decimal_no_line_break(n as nat);
            lemma_line_break_concat(" multipv "@, d);
            lemma_line_break_concat(" multipv "@ + d, r);
            assert(s[0] == ' ');
        },
        None => {
            assert(render_number(" multipv "@, nat_of_u32(v)) + r =~= r);
        },
    }
}

/// A written `depth` field of an `info` answer, then what may follow it, reads back as that field.
proof fn lemma_info_piece_depth(v: Option<u32>, r: Seq<char>, acc: SpecInfo)
    requires
        ends_token(r),
        acc.depth is None,
    ensures
        ends_token(render_number(" depth "@, nat_of_u32(v)) + r),
        !has_line_break(r) ==> !has_line_break(render_number(" depth "@, nat_of_u32(v)) + r),
        spec_info_args(render_number(" depth "@, nat_of_u32(v)) + r, acc) == spec_info_args(r, SpecInfo { depth: v, ..acc }),
{
    reveal_strlit(" depth ");
    reveal_strlit("depth");
    reveal_strlit("multipv");
    match v {
        Some(n) => {
            assert("depth"@.len() != "multipv"@.len());
            assert("depth"@ != "multipv"@);
            let d = decimal(n as nat);
            lemma_decimal_reads_back_from(n as nat, 0, u32::MAX as int);
            lemma_decimal_is_word(n as nat);
            let s = " depth "@ + d + r;
            assert(" depth "@ =~= seq![' '] + "depth"@ + seq![' ']);
            assert(s =~= seq![' '] + "depth"@ + (seq![' '] + d + r));
            lemma_read_word(seq![' '], "depth"@, seq![' '] + d + r);
            lemma_read_word(seq![' '], d, r);
            assert(!has_line_break(" depth "@));
            lemma_decimal_no_line_break(n as nat);
            lemma_line_break_concat(" depth "@, d);
            lemma_line_break_concat(" depth "@ + d, r);
            assert(s[0] == ' ');
        },
        None => {
            assert(render_number(" depth "@, nat_of_u32(v)) + r =~= r);
        },
    }
}

/// A written `seldepth` field of an `info` answer, then what may follow it, reads back as that
/// field.
proof fn lemma_info_piece_seldepth(v: Option<u32>, r: Seq<char>, acc: SpecInfo)
    requires
        ends_token(r),
        acc.seldepth is None,
    ensures
        ends_token(render_number(" seldepth "@, nat_of_u32(v)) + r),
        !has_line_break(r) ==> !has_line_break(render_number(" seldepth "@, nat_of_u32(v)) + r),
        spec_info_args(render_number(" seldepth "@, nat_of_u32(v)) + r, acc) == spec_info_args(r, SpecInfo { seldepth: v, ..acc }),
{
    reveal_strlit(" seldepth ");
    reveal_strlit("depth");
    reveal_strlit("multipv");
    reveal_strlit("seldepth");
    match v {
        Some(n) => {
            assert("seldepth"@.len() != "multipv"@.len());
            assert("seldepth"@ != "multipv"@);
            assert("seldepth"@.len() != "depth"@.len());
            assert("seldepth"@ != "depth"@);
            let d = decimal(n as nat);
            lemma_decimal_reads_back_from(n as nat, 0, u32::MAX as int);
            lemma_decimal_is_word(n as nat);
            let s = " seldepth "@ + d + r;
            assert(" seldepth "@ =~= seq![' '] + "seldepth"@ + seq![' ']);
            assert(s =~= seq![' '] + "seldepth"@ + (seq![' '] + d + r));
            lemma_read_word(seq![' '], "seldepth"@, seq![' '] + d + r);
            lemma_read_word(seq![' '], d, r);
            assert(!has_line_break(" seldepth "@));
            lemma_decimal_no_line_break(n as nat);
            lemma_line_break_concat(" seldepth "@, d);
            lemma_line_break_concat(" seldepth "@ + d, r);
            assert(s[0] == ' ');
        },
        None => {
            assert(render_number(" seldepth "@, nat_of_u32(v)) + r =~= r);
        },
    }
}

/// A written `time` field of an `info` answer, then what may follow it, reads back as that field.
proof fn lemma_info_piece_time(v: Option<u64>, r: Seq<char>, acc: SpecInfo)
    requires
        ends_token(r),
        acc.time is None,
    ensures
        ends_token(render_number(" time "@, nat_of_u64(v)) + r),
        !has_line_break(r) ==> !has_line_break(render_number(" time "@, nat_of_u64(v)) + r),
        spec_info_args(render_number(" time "@, nat_of_u64(v)) + r, acc) == spec_info_args(r, SpecInfo { time: v, ..acc }),
{
    reveal_strlit(" time ");
    reveal_strlit("depth");
    reveal_strlit("multipv");
    reveal_strlit("seldepth");
    reveal_strlit("time");
    match v {
        Some(n) => {
            assert("time"@.len() != "multipv"@.len());
            assert("time"@ != "multipv"@);
            assert("time"@.len() != "depth"@.len());
            assert("time"@ != "depth"@);
            assert("time"@.len() != "seldepth"@.len());
            assert("time"@ != "seldepth"@);
            let d = decimal(n as nat);
            lemma_decimal_reads_back_from(n as nat, 0, u64::MAX as int);
            lemma_decimal_is_word(n as nat);
            let s = " time "@ + d + r;
            assert(" time "@ =~= seq![' '] + "time"@ + seq![' ']);
            assert(s =~= seq![' '] + "time"@ + (seq![' '] + d + r));
            lemma_read_word(seq![' '], "time"@, seq![' '] + d + r);
            lemma_read_word(seq![' '], d, r);
            assert(!has_line_break(" time "@));
            lemma_decimal_no_line_break(n as nat);
            lemma_line_break_concat(" time "@, d);
            lemma_line_break_concat(" time "@ + d, r);
            assert(s[0] == ' ');
        },
        None => {
            assert(render_number(" time "@, nat_of_u64(v)) + r =~= r);
        },
    }
}

/// A written `nodes` field of an `info` answer, then what may follow it, reads back as that field.
proof fn lemma_info_piece_nodes(v: Option<u64>, r: Seq<char>, acc: SpecInfo)
    requires
        ends_token(r),
        acc.nodes is None,
    ensures
        ends_token(render_number(" nodes "@, nat_of_u64(v)) + r),
        !has_line_break(r) ==> !has_line_break(render_number(" nodes "@, nat_of_u64(v)) + r),
        spec_info_args(render_number(" nodes "@, nat_of_u64(v)) + r, acc) == spec_info_args(r, SpecInfo { nodes: v, ..acc }),
{
    reveal_strlit(" nodes ");
    reveal_strlit("depth");
    reveal_strlit("multipv");
    reveal_strlit("nodes");
    reveal_strlit("seldepth");
    reveal_strlit("time");
    match v {
        Some(n) => {
            assert("nodes"@.len() != "multipv"@.len());
            assert("nodes"@ != "multipv"@);
            assert("nodes"@[0] != "depth"@[0]);
            assert("nodes"@ != "depth"@);
            assert("nodes"@.len() != "seldepth"@.len());
            assert("nodes"@ != "seldepth"@);
            assert("nodes"@.len() != "time"@.len());
            assert("nodes"@ != "time"@);
            let d = decimal(n as nat);
            lemma_decimal_reads_back_from(n as nat, 0, u64::MAX as int);
            lemma_decimal_is_word(n as nat);
            let s = " nodes "@ + d + r;
            assert(" nodes "@ =~= seq![' '] + "nodes"@ + seq![' ']);
            assert(s =~= seq![' '] + "nodes"@ + (seq![' '] + d + r));
            lemma_read_word(seq![' '], "nodes"@, seq![' '] + d + r);
            lemma_read_word(seq![' '], d, r);
            assert(!has_line_break(" nodes "@));
            lemma_decimal_no_line_break(n as nat);
            lemma_line_break_concat(" nodes "@, d);
            lemma_line_break_concat(" nodes "@ + d, r);
            assert(s[0] == ' ');
        },
        None => {
            assert(render_number(" nodes "@, nat_of_u64(v)) + r =~= r);
        },
    }
}

/// A written `pv` field of an `info` answer, then what may follow it, reads back as that field.
proof fn lemma_info_piece_pv(v: Option<Seq<Seq<char>>>, r: Seq<char>, acc: SpecInfo)
    requires
        ends_token(r),
        acc.pv is None,
        v matches Some(ms) ==> all_move_texts(ms) && no_move_follows(r),
    ensures
        ends_token((match v { Some(ms) => " pv"@ + render_moves(ms), None => seq![] }) + r),
        !has_line_break(r) ==> !has_line_break((match v { Some(ms) => " pv"@ + render_moves(ms), None => seq![] }) + r),
        spec_info_args((match v { Some(ms) => " pv"@ + render_moves(ms), None => seq![] }) + r, acc) == spec_info_args(r, SpecInfo { pv: v, ..acc }),
{
    reveal_strlit(" pv");
    reveal_strlit("depth");
    reveal_strlit("multipv");
    reveal_strlit("nodes");
    reveal_strlit("pv");
    reveal_strlit("seldepth");
    reveal_strlit("time");
    match v {
        Some(ms) => {
            assert("pv"@.len() != "multipv"@.len());
            assert("pv"@ != "multipv"@);
            assert("pv"@.len() != "depth"@.len());
            assert("pv"@ != "depth"@);
            assert("pv"@.len() != "seldepth"@.len());
            assert("pv"@ != "seldepth"@);
            assert("pv"@.len() != "time"@.len());
            assert("pv"@ != "time"@);
            assert("pv"@.len() != "nodes"@.len());
            assert("pv"@ != "nodes"@);
            let s = " pv"@ + render_moves(ms) + r;
            assert(" pv"@ =~= seq![' '] + "pv"@);
            lemma_render_moves_ends_token(ms, r);
            assert(s =~= seq![' '] + "pv"@ + (render_moves(ms) + r));
            lemma_read_word(seq![' '], "pv"@, render_moves(ms) + r);
            lemma_parse_moves_render(Seq::<char>::empty(), ms, r);
            assert(Seq::<char>::empty() + render_moves(ms) + r =~= render_moves(ms) + r);
            assert(!has_line_break(" pv"@));
            lemma_render_moves_no_line_break(ms);
            lemma_line_break_concat(" pv"@, render_moves(ms));
            lemma_line_break_concat(" pv"@ + render_moves(ms), r);
            assert(s[0] == ' ');
        },
        None => {
            assert((match v { Some(ms) => " pv"@ + render_moves(ms), None => seq![] }) + r =~= r);
        },
    }
}

/// A written `score` field of an `info` answer, then what may follow it, reads back as that field.
proof fn lemma_info_piece_score(v: Option<Score>, r: Seq<char>, acc: SpecInfo)
    requires
        ends_token(r),
        acc.score is None,
        first_token_among(r, info_words()),
    ensures
        ends_token((match v { Some(s) => " score "@ + render_score(s), None => seq![] }) + r),
        !has_line_break(r) ==> !has_line_break((match v { Some(s) => " score "@ + render_score(s), None => seq![] }) + r),
        spec_info_args((match v { Some(s) => " score "@ + render_score(s), None => seq![] }) + r, acc) == spec_info_args(r, SpecInfo { score: v, ..acc }),
        first_token_among(r, info_words()) ==> first_token_among((match v { Some(s) => " score "@ + render_score(s), None => seq![] }) + r, info_words()),
{
    reveal_strlit(" score ");
    reveal_strlit("cpuload");
    reveal_strlit("currline");
    reveal_strlit("currmove");
    reveal_strlit("currmovenumber");
    reveal_strlit("depth");
    reveal_strlit("hashfull");
    reveal_strlit("multipv");
    reveal_strlit("nodes");
    reveal_strlit("nps");
    reveal_strlit("pv");
    reveal_strlit("refutation");
    reveal_strlit("sbhits");
    reveal_strlit("score");
    reveal_strlit("seldepth");
    reveal_strlit("string");
    reveal_strlit("tbhits");
    reveal_strlit("time");
    match v {
        Some(sc) => {
            assert("score"@.len() != "multipv"@.len());
            assert("score"@ != "multipv"@);
            assert("score"@[0] != "depth"@[0]);
            assert("score"@ != "depth"@);
            assert("score"@.len() != "seldepth"@.len());
            assert("score"@ != "seldepth"@);
            assert("score"@.len() != "time"@.len());
            assert("score"@ != "time"@);
            assert("score"@[0] != "nodes"@[0]);
            assert("score"@ != "nodes"@);
            assert("score"@.len() != "pv"@.len());
            assert("score"@ != "pv"@);
            let s = " score "@ + render_score(sc) + r;
            assert(" score "@ =~= seq![' '] + "score"@ + seq![' ']);
            lemma_score_reads_back(sc, r);
            assert(s =~= seq![' '] + "score"@ + (seq![' '] + render_score(sc) + r));
            lemma_read_word(seq![' '], "score"@, seq![' '] + render_score(sc) + r);
            assert(!has_line_break(" score "@));
            lemma_line_break_concat(" score "@, render_score(sc));
            lemma_line_break_concat(" score "@ + render_score(sc), r);
            assert(info_words()[0] == "score"@);
            assert(s[0] == ' ');
        },
        None => {
            assert((match v { Some(s) => " score "@ + render_score(s), None => seq![] }) + r =~= r);
        },
    }
}

/// A written `currmove` field of an `info` answer, then what may follow it, reads back as that
/// field.
proof fn lemma_info_piece_currmove(v: Option<Seq<char>>, r: Seq<char>, acc: SpecInfo)
    requires
        ends_token(r),
        acc.currmove is None,
        v matches Some(m) ==> is_move_text(m),
    ensures
        ends_token(render_text(" currmove "@, v) + r),
        !has_line_break(r) ==> !has_line_break(render_text(" currmove "@, v) + r),
        spec_info_args(render_text(" currmove "@, v) + r, acc) == spec_info_args(r, SpecInfo { currmove: v, ..acc }),
        first_token_among(r, info_words()) ==> first_token_among(render_text(" currmove "@, v) + r, info_words()),
{
    reveal_strlit(" currmove ");
    reveal_strlit("cpuload");
    reveal_strlit("currline");
    reveal_strlit("currmove");
    reveal_strlit("currmovenumber");
    reveal_strlit("depth");
    reveal_strlit("hashfull");
    reveal_strlit("multipv");
    reveal_strlit("nodes");
    reveal_strlit("nps");
    reveal_strlit("pv");
    reveal_strlit("refutation");
    reveal_strlit("sbhits");
    reveal_strlit("score");
    reveal_strlit("seldepth");
    reveal_strlit("string");
    reveal_strlit("tbhits");
    reveal_strlit("time");
    match v {
        Some(m) => {
            assert("currmove"@.len() != "multipv"@.len());
            assert("currmove"@ != "multipv"@);
            assert("currmove"@.len() != "depth"@.len());
            assert("currmove"@ != "depth"@);
            assert("currmove"@[0] != "seldepth"@[0]);
            assert("currmove"@ != "seldepth"@);
            assert("currmove"@.len() != "time"@.len());
            assert("currmove"@ != "time"@);
            assert("currmove"@.len() != "nodes"@.len());
            assert("currmove"@ != "nodes"@);
            assert("currmove"@.len() != "pv"@.len());
            assert("currmove"@ != "pv"@);
            assert("currmove"@.len() != "score"@.len());
            assert("currmove"@ != "score"@);
            let s = " currmove "@ + m + r;
            assert(" currmove "@ =~= seq![' '] + "currmove"@ + seq![' ']);
            assert(s =~= seq![' '] + "currmove"@ + (seq![' '] + m + r));
            lemma_read_word(seq![' '], "currmove"@, seq![' '] + m + r);
            lemma_read_word(seq![' '], m, r);
            assert(!has_line_break(" currmove "@));
            lemma_move_no_line_break(m);
            lemma_line_break_concat(" currmove "@, m);
            lemma_line_break_concat(" currmove "@ + m, r);
            assert(info_words()[1] == "currmove"@);
            assert(s[0] == ' ');
        },
        None => {
            assert(render_text(" currmove "@, v) + r =~= r);
        },
    }
}

/// A written `currmovenumber` field of an `info` answer, then what may follow it, reads back as
/// that field.
proof fn lemma_info_piece_currmovenumber(v: Option<u32>, r: Seq<char>, acc: SpecInfo)
    requires
        ends_token(r),
        acc.currmovenumber is None,
    ensures
        ends_token(render_number(" currmovenumber "@, nat_of_u32(v)) + r),
        !has_line_break(r) ==> !has_line_break(render_number(" currmovenumber "@, nat_of_u32(v)) + r),
        spec_info_args(render_number(" currmovenumber "@, nat_of_u32(v)) + r, acc) == spec_info_args(r, SpecInfo { currmovenumber: v, ..acc }),
        first_token_among(r, info_words()) ==> first_token_among(render_number(" currmovenumber "@, nat_of_u32(v)) + r, info_words()),
{
    reveal_strlit(" currmovenumber ");
    reveal_strlit("cpuload");
    reveal_strlit("currline");
    reveal_strlit("currmove");
    reveal_strlit("currmovenumber");
    reveal_strlit("depth");
    reveal_strlit("hashfull");
    reveal_strlit("multipv");
    reveal_strlit("nodes");
    reveal_strlit("nps");
    reveal_strlit("pv");
    reveal_strlit("refutation");
    reveal_strlit("sbhits");
    reveal_strlit("score");
    reveal_strlit("seldepth");
    reveal_strlit("string");
    reveal_strlit("tbhits");
    reveal_strlit("time");
    match v {
        Some(n) => {
            assert("currmovenumber"@.len() != "multipv"@.len());
            assert("currmovenumber"@ != "multipv"@);
            assert("currmovenumber"@.len() != "depth"@.len());
            assert("currmovenumber"@ != "depth"@);
            assert("currmovenumber"@.len() != "seldepth"@.len());
            assert("currmovenumber"@ != "seldepth"@);
            assert("currmovenumber"@.len() != "time"@.len());
            assert("currmovenumber"@ != "time"@);
            assert("currmovenumber"@.len() != "nodes"@.len());
            assert("currmovenumber"@ != "nodes"@);
            assert("currmovenumber"@.len() != "pv"@.len());
            assert("currmovenumber"@ != "pv"@);
            assert("currmovenumber"@.len() != "score"@.len());
            assert("currmovenumber"@ != "score"@);
            assert("currmovenumber"@.len() != "currmove"@.len());
            assert("currmovenumber"@ != "currmove"@);
            let d = decimal(n as nat);
            lemma_decimal_reads_back_from(n as nat, 0, u32::MAX as int);
            lemma_decimal_is_word(n as nat);
            let s = " currmovenumber "@ + d + r;
            assert(" currmovenumber "@ =~= seq![' '] + "currmovenumber"@ + seq![' ']);
            assert(s =~= seq![' '] + "currmovenumber"@ + (seq![' '] + d + r));
            lemma_read_word(seq![' '], "currmovenumber"@, seq![' '] + d + r);
            lemma_read_word(seq![' '], d, r);
            assert(!has_line_break(" currmovenumber "@));
            lemma_decimal_no_line_break(n as nat);
            lemma_line_break_concat(" currmovenumber "@, d);
            lemma_line_break_concat(" currmovenumber "@ + d, r);
            assert(info_words()[2] == "currmovenumber"@);
            assert(s[0] == ' ');
        },
        None => {
            assert(render_number(" currmovenumber "@, nat_of_u32(v)) + r =~= r);
        },
    }
}

/// A written `hashfull` field of an `info` answer, then what may follow it, reads back as that
/// field.
proof fn lemma_info_piece_hashfull(v: Option<u32>, r: Seq<char>, acc: SpecInfo)
    requires
        ends_token(r),
        acc.hashfull is None,
    ensures
        ends_token(render_number(" hashfull "@, nat_of_u32(v)) + r),
        !has_line_break(r) ==> !has_line_break(render_number(" hashfull "@, nat_of_u32(v)) + r),
        spec_info_args(render_number(" hashfull "@, nat_of_u32(v)) + r, acc) == spec_info_args(r, SpecInfo { hashfull: v, ..acc }),
        first_token_among(r, info_words()) ==> first_token_among(render_number(" hashfull "@, nat_of_u32(v)) + r, info_words()),
{
    reveal_strlit(" hashfull ");
    reveal_strlit("cpuload");
    reveal_strlit("currline");
    reveal_strlit("currmove");
    reveal_strlit("currmovenumber");
    reveal_strlit("depth");
    reveal_strlit("hashfull");
    reveal_strlit("multipv");
    reveal_strlit("nodes");
    reveal_strlit("nps");
    reveal_strlit("pv");
    reveal_strlit("refutation");
    reveal_strlit("sbhits");
    reveal_strlit("score");
    reveal_strlit("seldepth");
    reveal_strlit("string");
    reveal_strlit("tbhits");
    reveal_strlit("time");
    match v {
        Some(n) => {
            assert("hashfull"@.len() != "multipv"@.len());
            assert("hashfull"@ != "multipv"@);
            assert("hashfull"@.len() != "depth"@.len());
            assert("hashfull"@ != "depth"@);
            assert("hashfull"@[0] != "seldepth"@[0]);
            assert("hashfull"@ != "seldepth"@);
            assert("hashfull"@.len() != "time"@.len());
            assert("hashfull"@ != "time"@);
            assert("hashfull"@.len() != "nodes"@.len());
            assert("hashfull"@ != "nodes"@);
            assert("hashfull"@.len() != "pv"@.len());
            assert("hashfull"@ != "pv"@);
            assert("hashfull"@.len() != "score"@.len());
            assert("hashfull"@ != "score"@);
            assert("hashfull"@[0] != "currmove"@[0]);
            assert("hashfull"@ != "currmove"@);
            assert("hashfull"@.len() != "currmovenumber"@.len());
            assert("hashfull"@ != "currmovenumber"@);
            let d = decimal(n as nat);
            lemma_decimal_reads_back_from(n as nat, 0, u32::MAX as int);
            lemma_decimal_is_word(n as nat);
            let s = " hashfull "@ + d + r;
            assert(" hashfull "@ =~= seq![' '] + "hashfull"@ + seq![' ']);
            assert(s =~= seq![' '] + "hashfull"@ + (seq![' '] + d + r));
            lemma_read_word(seq![' '], "hashfull"@, seq![' '] + d + r);
            lemma_read_word(seq![' '], d, r);
            assert(!has_line_break(" hashfull "@));
            lemma_decimal_no_line_break(n as nat);
            lemma_line_break_concat(" hashfull "@, d);
            lemma_line_break_concat(" hashfull "@ + d, r);
            assert(info_words()[3] == "hashfull"@);
            assert(s[0] == ' ');
        },
        None => {
            assert(render_number(" hashfull "@, nat_of_u32(v)) + r =~= r);
        },
    }
}

/// A written `nps` field of an `info` answer, then what may follow it, reads back as that field.
proof fn lemma_info_piece_nps(v: Option<u64>, r: Seq<char>, acc: SpecInfo)
    requires
        ends_token(r),
        acc.nps is None,
    ensures
        ends_token(render_number(" nps "@, nat_of_u64(v)) + r),
        !has_line_break(r) ==> !has_line_break(render_number(" nps "@, nat_of_u64(v)) + r),
        spec_info_args(render_number(" nps "@, nat_of_u64(v)) + r, acc) == spec_info_args(r, SpecInfo { nps: v, ..acc }),
        first_token_among(r, info_words()) ==> first_token_among(render_number(" nps "@, nat_of_u64(v)) + r, info_words()),
{
    reveal_strlit(" nps ");
    reveal_strlit("cpuload");
    reveal_strlit("currline");
    reveal_strlit("currmove");
    reveal_strlit("currmovenumber");
    reveal_strlit("depth");
    reveal_strlit("hashfull");
    reveal_strlit("multipv");
    reveal_strlit("nodes");
    reveal_strlit("nps");
    reveal_strlit("pv");
    reveal_strlit("refutation");
    reveal_strlit("sbhits");
    reveal_strlit("score");
    reveal_strlit("seldepth");
    reveal_strlit("string");
    reveal_strlit("tbhits");
    reveal_strlit("time");
    match v {
        Some(n) => {
            assert("nps"@.len() != "multipv"@.len());
            assert("nps"@ != "multipv"@);
            assert("nps"@.len() != "depth"@.len());
            assert("nps"@ != "depth"@);
            assert("nps"@.len() != "seldepth"@.len());
            assert("nps"@ != "seldepth"@);
            assert("nps"@.len() != "time"@.len());
            assert("nps"@ != "time"@);
            assert("nps"@.len() != "nodes"@.len());
            assert("nps"@ != "nodes"@);
            assert("nps"@.len() != "pv"@.len());
            assert("nps"@ != "pv"@);
            assert("nps"@.len() != "score"@.len());
            assert("nps"@ != "score"@);
            assert("nps"@.len() != "currmove"@.len());
            assert("nps"@ != "currmove"@);
            assert("nps"@.len() != "currmovenumber"@.len());
            assert("nps"@ != "currmovenumber"@);
            assert("nps"@.len() != "hashfull"@.len());
            assert("nps"@ != "hashfull"@);
            let d = decimal(n as nat);
            lemma_decimal_reads_back_from(n as nat, 0, u64::MAX as int);
            lemma_decimal_is_word(n as nat);
            let s = " nps "@ + d + r;
            assert(" nps "@ =~= seq![' '] + "nps"@ + seq![' ']);
            assert(s =~= seq![' '] + "nps"@ + (seq![' '] + d + r));
            lemma_read_word(seq![' '], "nps"@, seq![' '] + d + r);
            lemma_read_word(seq![' '], d, r);
            assert(!has_line_break(" nps "@));
            lemma_decimal_no_line_break(n as nat);
            lemma_line_break_concat(" nps "@, d);
            lemma_line_break_concat(" nps "@ + d, r);
            assert(info_words()[4] == "nps"@);
            assert(s[0] == ' ');
        },
        None => {
            assert(render_number(" nps "@, nat_of_u64(v)) + r =~= r);
        },
    }
}

/// A written `tbhits` field of an `info` answer, then what may follow it, reads back as that field.
proof fn lemma_info_piece_tbhits(v: Option<u64>, r: Seq<char>, acc: SpecInfo)
    requires
        ends_token(r),
        acc.tbhits is None,
    ensures
        ends_token(render_number(" tbhits "@, nat_of_u64(v)) + r),
        !has_line_break(r) ==> !has_line_break(render_number(" tbhits "@, nat_of_u64(v)) + r),
        spec_info_args(render_number(" tbhits "@, nat_of_u64(v)) + r, acc) == spec_info_args(r, SpecInfo { tbhits: v, ..acc }),
        first_token_among(r, info_words()) ==> first_token_among(render_number(" tbhits "@, nat_of_u64(v)) + r, info_words()),
{
    reveal_strlit(" tbhits ");
    reveal_strlit("cpuload");
    reveal_strlit("currline");
    reveal_strlit("currmove");
    reveal_strlit("currmovenumber");
    reveal_strlit("depth");
    reveal_strlit("hashfull");
    reveal_strlit("multipv");
    reveal_strlit("nodes");
    reveal_strlit("nps");
    reveal_strlit("pv");
    reveal_strlit("refutation");
    reveal_strlit("sbhits");
    reveal_strlit("score");
    reveal_strlit("seldepth");
    reveal_strlit("string");
    reveal_strlit("tbhits");
    reveal_strlit("time");
    match v {
        Some(n) => {
            assert("tbhits"@.len() != "multipv"@.len());
            assert("tbhits"@ != "multipv"@);
            assert("tbhits"@.len() != "depth"@.len());
            assert("tbhits"@ != "depth"@);
            assert("tbhits"@.len() != "seldepth"@.len());
            assert("tbhits"@ != "seldepth"@);
            assert("tbhits"@.len() != "time"@.len());
            assert("tbhits"@ != "time"@);
            assert("tbhits"@.len() != "nodes"@.len());
            assert("tbhits"@ != "nodes"@);
            assert("tbhits"@.len() != "pv"@.len());
            assert("tbhits"@ != "pv"@);
            assert("tbhits"@.len() != "score"@.len());
            assert("tbhits"@ != "score"@);
            assert("tbhits"@.len() != "currmove"@.len());
            assert("tbhits"@ != "currmove"@);
            assert("tbhits"@.len() != "currmovenumber"@.len());
            assert("tbhits"@ != "currmovenumber"@);
            assert("tbhits"@.len() != "hashfull"@.len());
            assert("tbhits"@ != "hashfull"@);
            assert("tbhits"@.len() != "nps"@.len());
            assert("tbhits"@ != "nps"@);
            let d = decimal(n as nat);
            lemma_decimal_reads_back_from(n as nat, 0, u64::MAX as int);
            lemma_decimal_is_word(n as nat);
            let s = " tbhits "@ + d + r;
            assert(" tbhits "@ =~= seq![' '] + "tbhits"@ + seq![' ']);
            assert(s =~= seq![' '] + "tbhits"@ + (seq![' '] + d + r));
            lemma_read_word(seq![' '], "tbhits"@, seq![' '] + d + r);
            lemma_read_word(seq![' '], d, r);
            assert(!has_line_break(" tbhits "@));
            lemma_decimal_no_line_break(n as nat);
            lemma_line_break_concat(" tbhits "@, d);
            lemma_line_break_concat(" tbhits "@ + d, r);
            assert(info_words()[5] == "tbhits"@);
            assert(s[0] == ' ');
        },
        None => {
            assert(render_number(" tbhits "@, nat_of_u64(v)) + r =~= r);
        },
    }
}

/// A written `sbhits` field of an `info` answer, then what may follow it, reads back as that field.
proof fn lemma_info_piece_sbhits(v: Option<u64>, r: Seq<char>, acc: SpecInfo)
    requires
        ends_token(r),
        acc.sbhits is None,
    ensures
        ends_token(render_number(" sbhits "@, nat_of_u64(v)) + r),
        !has_line_break(r) ==> !has_line_break(render_number(" sbhits "@, nat_of_u64(v)) + r),
        spec_info_args(render_number(" sbhits "@, nat_of_u64(v)) + r, acc) == spec_info_args(r, SpecInfo { sbhits: v, ..acc }),
        first_token_among(r, info_words()) ==> first_token_among(render_number(" sbhits "@, nat_of_u64(v)) + r, info_words()),
{
    reveal_strlit(" sbhits ");
    reveal_strlit("cpuload");
    reveal_strlit("currline");
    reveal_strlit("currmove");
    reveal_strlit("currmovenumber");
    reveal_strlit("depth");
    reveal_strlit("hashfull");
    reveal_strlit("multipv");
    reveal_strlit("nodes");
    reveal_strlit("nps");
    reveal_strlit("pv");
    reveal_strlit("refutation");
    reveal_strlit("sbhits");
    reveal_strlit("score");
    reveal_strlit("seldepth");
    reveal_strlit("string");
    reveal_strlit("tbhits");
    reveal_strlit("time");
    match v {
        Some(n) => {
            assert("sbhits"@.len() != "multipv"@.len());
            assert("sbhits"@ != "multipv"@);
            assert("sbhits"@.len() != "depth"@.len());
            assert("sbhits"@ != "depth"@);
            assert("sbhits"@.len() != "seldepth"@.len());
            assert("sbhits"@ != "seldepth"@);
            assert("sbhits"@.len() != "time"@.len());
            assert("sbhits"@ != "time"@);
            assert("sbhits"@.len() != "nodes"@.len());
            assert("sbhits"@ != "nodes"@);
            assert("sbhits"@.len() != "pv"@.len());
            assert("sbhits"@ != "pv"@);
            assert("sbhits"@.len() != "score"@.len());
            assert("sbhits"@ != "score"@);
            assert("sbhits"@.len() != "currmove"@.len());
            assert("sbhits"@ != "currmove"@);
            assert("sbhits"@.len() != "currmovenumber"@.len());
            assert("sbhits"@ != "currmovenumber"@);
            assert("sbhits"@.len() != "hashfull"@.len());
            assert("sbhits"@ != "hashfull"@);
            assert("sbhits"@.len() != "nps"@.len());
            assert("sbhits"@ != "nps"@);
            assert("sbhits"@[0] != "tbhits"@[0]);
            assert("sbhits"@ != "tbhits"@);
            let d = decimal(n as nat);
            lemma_decimal_reads_back_from(n as nat, 0, u64::MAX as int);
            lemma_decimal_is_word(n as nat);
            let s = " sbhits "@ + d + r;
            assert(" sbhits "@ =~= seq![' '] + "sbhits"@ + seq![' ']);
            assert(s =~= seq![' '] + "sbhits"@ + (seq![' '] + d + r));
            lemma_read_word(seq![' '], "sbhits"@, seq![' '] + d + r);
            lemma_read_word(seq![' '], d, r);
            assert(!has_line_break(" sbhits "@));
            lemma_decimal_no_line_break(n as nat);
            lemma_line_break_concat(" sbhits "@, d);
            lemma_line_break_concat(" sbhits "@ + d, r);
            assert(info_words()[6] == "sbhits"@);
            assert(s[0] == ' ');
        },
        None => {
            assert(render_number(" sbhits "@, nat_of_u64(v)) + r =~= r);
        },
    }
}

/// A written `cpuload` field of an `info` answer, then what may follow it, reads back as that
/// field.
proof fn lemma_info_piece_cpuload(v: Option<u32>, r: Seq<char>, acc: SpecInfo)
    requires
        ends_token(r),
        acc.cpuload is None,
    ensures
        ends_token(render_number(" cpuload "@, nat_of_u32(v)) + r),
        !has_line_break(r) ==> !has_line_break(render_number(" cpuload "@, nat_of_u32(v)) + r),
        spec_info_args(render_number(" cpuload "@, nat_of_u32(v)) + r, acc) == spec_info_args(r, SpecInfo { cpuload: v, ..acc }),
        first_token_among(r, info_words()) ==> first_token_among(render_number(" cpuload "@, nat_of_u32(v)) + r, info_words()),
{
    reveal_strlit(" cpuload ");
    reveal_strlit("cpuload");
    reveal_strlit("currline");
    reveal_strlit("currmove");
    reveal_strlit("currmovenumber");
    reveal_strlit("depth");
    reveal_strlit("hashfull");
    reveal_strlit("multipv");
    reveal_strlit("nodes");
    reveal_strlit("nps");
    reveal_strlit("pv");
    reveal_strlit("refutation");
    reveal_strlit("sbhits");
    reveal_strlit("score");
    reveal_strlit("seldepth");
    reveal_strlit("string");
    reveal_strlit("tbhits");
    reveal_strlit("time");
    match v {
        Some(n) => {
            assert("cpuload"@[0] != "multipv"@[0]);
            assert("cpuload"@ != "multipv"@);
            assert("cpuload"@.len() != "depth"@.len());
            assert("cpuload"@ != "depth"@);
            assert("cpuload"@.len() != "seldepth"@.len());
            assert("cpuload"@ != "seldepth"@);
            assert("cpuload"@.len() != "time"@.len());
            assert("cpuload"@ != "time"@);
            assert("cpuload"@.len() != "nodes"@.len());
            assert("cpuload"@ != "nodes"@);
            assert("cpuload"@.len() != "pv"@.len());
            assert("cpuload"@ != "pv"@);
            assert("cpuload"@.len() != "score"@.len());
            assert("cpuload"@ != "score"@);
            assert("cpuload"@.len() != "currmove"@.len());
            assert("cpuload"@ != "currmove"@);
            assert("cpuload"@.len() != "currmovenumber"@.len());
            assert("cpuload"@ != "currmovenumber"@);
            assert("cpuload"@.len() != "hashfull"@.len());
            assert("cpuload"@ != "hashfull"@);
            assert("cpuload"@.len() != "nps"@.len());
            assert("cpuload"@ != "nps"@);
            assert("cpuload"@.len() != "tbhits"@.len());
            assert("cpuload"@ != "tbhits"@);
            assert("cpuload"@.len() != "sbhits"@.len());
            assert("cpuload"@ != "sbhits"@);
            let d = decimal(n as nat);
            lemma_decimal_reads_back_from(n as nat, 0, u32::MAX as int);
            lemma_decimal_is_word(n as nat);
            let s = " cpuload "@ + d + r;
            assert(" cpuload "@ =~= seq![' '] + "cpuload"@ + seq![' ']);
            assert(s =~= seq![' '] + "cpuload"@ + (seq![' '] + d + r));
            lemma_read_word(seq![' '], "cpuload"@, seq![' '] + d + r);
            lemma_read_word(seq![' '], d, r);
            assert(!has_line_break(" cpuload "@));
            lemma_decimal_no_line_break(n as nat);
            lemma_line_break_concat(" cpuload "@, d);
            lemma_line_break_concat(" cpuload "@ + d, r);
            assert(info_words()[7] == "cpuload"@);
            assert(s[0] == ' ');
        },
        None => {
            assert(render_number(" cpuload "@, nat_of_u32(v)) + r =~= r);
        },
    }
}

/// A written `string` field of an `info` answer, then what may follow it, reads back as that field.
proof fn lemma_info_piece_string(v: Option<Seq<char>>, r: Seq<char>, acc: SpecInfo)
    requires
        ends_token(r),
        acc.string is None,
        r.len() == 0,
        v matches Some(t) ==> (t.len() == 0 || !is_separator_char(t[0])) && !has_line_break(t),
    ensures
        ends_token(render_text(" string "@, v) + r),
        !has_line_break(r) ==> !has_line_break(render_text(" string "@, v) + r),
        spec_info_args(render_text(" string "@, v) + r, acc) == spec_info_args(r, SpecInfo { string: v, ..acc }),
        first_token_among(r, info_words()) ==> first_token_among(render_text(" string "@, v) + r, info_words()),
{
    reveal_strlit(" string ");
    reveal_strlit("cpuload");
    reveal_strlit("currline");
    reveal_strlit("currmove");
    reveal_strlit("currmovenumber");
    reveal_strlit("depth");
    reveal_strlit("hashfull");
    reveal_strlit("multipv");
    reveal_strlit("nodes");
    reveal_strlit("nps");
    reveal_strlit("pv");
    reveal_strlit("refutation");
    reveal_strlit("sbhits");
    reveal_strlit("score");
    reveal_strlit("seldepth");
    reveal_strlit("string");
    reveal_strlit("tbhits");
    reveal_strlit("time");
    match v {
        Some(t) => {
            assert("string"@.len() != "multipv"@.len());
            assert("string"@ != "multipv"@);
            assert("string"@.len() != "depth"@.len());
            assert("string"@ != "depth"@);
            assert("string"@.len() != "seldepth"@.len());
            assert("string"@ != "seldepth"@);
            assert("string"@.len() != "time"@.len());
            assert("string"@ != "time"@);
            assert("string"@.len() != "nodes"@.len());
            assert("string"@ != "nodes"@);
            assert("string"@.len() != "pv"@.len());
            assert("string"@ != "pv"@);
            assert("string"@.len() != "score"@.len());
            assert("string"@ != "score"@);
            assert("string"@.len() != "currmove"@.len());
            assert("string"@ != "currmove"@);
            assert("string"@.len() != "currmovenumber"@.len());
            assert("string"@ != "currmovenumber"@);
            assert("string"@.len() != "hashfull"@.len());
            assert("string"@ != "hashfull"@);
            assert("string"@.len() != "nps"@.len());
            assert("string"@ != "nps"@);
            assert("string"@[0] != "tbhits"@[0]);
            assert("string"@ != "tbhits"@);
            assert("string"@[1] != "sbhits"@[1]);
            assert("string"@ != "sbhits"@);
            assert("string"@.len() != "cpuload"@.len());
            assert("string"@ != "cpuload"@);
            assert("string"@.len() != "refutation"@.len());
            assert("string"@ != "refutation"@);
            assert("string"@.len() != "currline"@.len());
            assert("string"@ != "currline"@);
            let s = " string "@ + t + r;
            assert(" string "@ =~= seq![' '] + "string"@ + seq![' ']);
            assert(s =~= seq![' '] + "string"@ + (seq![' '] + t));
            assert(r =~= Seq::<char>::empty());
            if t.len() > 0 {
                lemma_read_rest_of_line(seq![' '], t);
            } else {
                assert(seq![' '] + t =~= seq![' ']);
                lemma_read_until_blank(seq![' ']);
                assert(t =~= Seq::<char>::empty());
            }
            lemma_read_word(seq![' '], "string"@, seq![' '] + t);
            assert(!has_line_break(" string "@));
            lemma_line_break_concat(" string "@, t);
            lemma_line_break_concat(" string "@ + t, r);
            assert(info_words()[10] == "string"@);
            assert(s[0] == ' ');
        },
        None => {
            assert(render_text(" string "@, v) + r =~= r);
        },
    }
}

/// Written refutation lines: the first one, then the others.
proof fn lemma_render_refutations_cons(e: (Seq<char>, Seq<Seq<char>>), ls: Seq<(Seq<char>, Seq<Seq<char>>)>)
    ensures
        render_refutations(seq![e] + ls) == " refutation "@ + e.0 + render_moves(e.1)
            + render_refutations(ls),
    decreases ls.len(),
{
    let x = seq![e] + ls;
    if ls.len() == 0 {
        assert(x.drop_last() =~= Seq::<(Seq<char>, Seq<Seq<char>>)>::empty());
        assert(render_refutations(Seq::<(Seq<char>, Seq<Seq<char>>)>::empty()) =~= Seq::<char>::empty());
        assert(x.last() == e);
        assert(render_refutations(x) =~= " refutation "@ + e.0 + render_moves(e.1));
        assert(render_refutations(ls) =~= Seq::<char>::empty());
        assert(render_refutations(x) =~= " refutation "@ + e.0 + render_moves(e.1)
            + render_refutations(ls));
    } else {
        assert(x.drop_last() =~= seq![e] + ls.drop_last());
        assert(x.last() == ls.last());
        lemma_render_refutations_cons(e, ls.drop_last());
        assert(render_refutations(x) =~= " refutation "@ + e.0 + render_moves(e.1)
            + render_refutations(ls));
    }
}

/// Written current lines: the first one, then the others.
proof fn lemma_render_currlines_cons(e: (u32, Seq<Seq<char>>), ls: Seq<(u32, Seq<Seq<char>>)>)
    ensures
        render_currlines(seq![e] + ls) == " currline "@ + decimal(e.0 as nat) + render_moves(e.1)
            + render_currlines(ls),
    decreases ls.len(),
{
    let x = seq![e] + ls;
    if ls.len() == 0 {
        assert(x.drop_last() =~= Seq::<(u32, Seq<Seq<char>>)>::empty());
        assert(render_currlines(Seq::<(u32, Seq<Seq<char>>)>::empty()) =~= Seq::<char>::empty());
        assert(x.last() == e);
        assert(render_currlines(x) =~= " currline "@ + decimal(e.0 as nat) + render_moves(e.1));
        assert(render_currlines(ls) =~= Seq::<char>::empty());
        assert(render_currlines(x) =~= " currline "@ + decimal(e.0 as nat) + render_moves(e.1)
            + render_currlines(ls));
    } else {
        assert(x.drop_last() =~= seq![e] + ls.drop_last());
        assert(x.last() == ls.last());
        lemma_render_currlines_cons(e, ls.drop_last());
        assert(render_currlines(x) =~= " currline "@ + decimal(e.0 as nat) + render_moves(e.1)
            + render_currlines(ls));
    }
}

/// Whether every line of `ls` holds moves only.
pub open spec fn lines_of_moves<K>(ls: Seq<(K, Seq<Seq<char>>)>) -> bool {
    forall|i: int| 0 <= i < ls.len() ==> all_move_texts(#[trigger] ls[i].1)
}

/// Putting a line under a key that the lines do not have adds it at the end.
proof fn lemma_line_insert_new<K>(m: Seq<(K, Seq<Seq<char>>)>, k: K, v: Seq<Seq<char>>)
    requires
        forall|j: int| 0 <= j < m.len() ==> m[j].0 != k,
    ensures
        line_insert(m, k, v) == m.push((k, v)),
{
    assert(!exists|i: int| is_first_key(m, k, i));
}

/// Written refutation lines, then what may follow them, read back as those lines.
proof fn lemma_info_refutations(ls: Seq<(Seq<char>, Seq<Seq<char>>)>, r: Seq<char>, acc: SpecInfo)
    requires
        ends_token(r),
        first_token_among(r, info_words()),
        ls.len() > 0 ==> info_words_are_no_moves(),
        distinct_keys(ls),
        lines_of_moves(ls),
        forall|i: int| 0 <= i < ls.len() ==> is_move_text(#[trigger] ls[i].0),
        forall|i: int, j: int|
            0 <= i < ls.len() && 0 <= j < acc.refutation.len() ==> acc.refutation[j].0 != ls[i].0,
        !has_line_break(r),
    ensures
        ends_token(render_refutations(ls) + r),
        first_token_among(render_refutations(ls) + r, info_words()),
        !has_line_break(render_refutations(ls) + r),
        spec_info_args(render_refutations(ls) + r, acc) == spec_info_args(
            r,
            SpecInfo { refutation: acc.refutation + ls, ..acc },
        ),
    decreases ls.len(),
{
    reveal_strlit("refutation");
    reveal_strlit(" refutation ");
    reveal_strlit("cpuload");
    reveal_strlit("currline");
    reveal_strlit("currmove");
    reveal_strlit("currmovenumber");
    reveal_strlit("depth");
    reveal_strlit("hashfull");
    reveal_strlit("multipv");
    reveal_strlit("nodes");
    reveal_strlit("nps");
    reveal_strlit("pv");
    reveal_strlit("refutation");
    reveal_strlit("sbhits");
    reveal_strlit("score");
    reveal_strlit("seldepth");
    reveal_strlit("string");
    reveal_strlit("tbhits");
    reveal_strlit("time");
    if ls.len() == 0 {
        assert(render_refutations(ls) =~= Seq::<char>::empty());
        assert(render_refutations(ls) + r =~= r);
        assert(acc.refutation + ls =~= acc.refutation);
        assert(SpecInfo { refutation: acc.refutation + ls, ..acc } == acc);
    } else {
        let e = ls[0];
        let tail = ls.drop_first();
        assert(ls =~= seq![e] + tail);
        lemma_render_refutations_cons(e, tail);
        let acc2 = SpecInfo { refutation: acc.refutation.push(e), ..acc };
        assert forall|i: int, j: int|
            0 <= i < tail.len() && 0 <= j < acc2.refutation.len() implies acc2.refutation[j].0
            != tail[i].0 by {
            assert(tail[i] == ls[i + 1]);
            if j < acc.refutation.len() {
                assert(acc2.refutation[j] == acc.refutation[j]);
            } else {
                assert(acc2.refutation[j] == ls[0]);
            }
        }
        assert(distinct_keys(tail)) by {
            assert forall|i: int, j: int| 0 <= i < j < tail.len() implies tail[i].0 != tail[j].0 by {
                assert(tail[i] == ls[i + 1]);
                assert(tail[j] == ls[j + 1]);
            }
        }
        assert(lines_of_moves(tail)) by {
            assert forall|i: int| 0 <= i < tail.len() implies all_move_texts(#[trigger] tail[i].1) by {
                assert(tail[i] == ls[i + 1]);
            }
        }
        assert forall|i: int| 0 <= i < tail.len() implies is_move_text(#[trigger] tail[i].0) by {
            assert(tail[i] == ls[i + 1]);
        }
        lemma_info_refutations(tail, r, acc2);
        let rr = render_refutations(tail) + r;
        assert(is_move_text(ls[0].0));
        assert(all_move_texts(ls[0].1));
        let k = e.0;
        let ms = e.1;
        lemma_move_no_line_break(k);
        // the moves of the line
        if let Some(w) = spec_read(rr).0 {
            let j = choose|j: int| 0 <= j < info_words().len() && info_words()[j] == w;
            assert(uci_move_text(info_words()[j]) is None);
        }
        lemma_render_moves_ends_token(ms, rr);
        lemma_parse_moves_render(Seq::<char>::empty(), ms, rr);
        assert(Seq::<char>::empty() + render_moves(ms) + rr =~= render_moves(ms) + rr);
        // the key
        lemma_read_word(seq![' '], k, render_moves(ms) + rr);
        assert(spec_move_arg(seq![' '] + k + (render_moves(ms) + rr)) == (Ok::<Seq<char>, ErrorKind>(k), render_moves(ms) + rr));
        // the word
        let s = render_refutations(ls) + r;
        assert(" refutation "@ =~= seq![' '] + "refutation"@ + seq![' ']);
        assert(s =~= seq![' '] + "refutation"@ + (seq![' '] + k + (render_moves(ms) + rr)));
        lemma_read_word(seq![' '], "refutation"@, seq![' '] + k + (render_moves(ms) + rr));
        lemma_line_insert_new(acc.refutation, k, ms);
        assert(acc.refutation.push(e) + tail =~= acc.refutation + ls);
        assert("refutation"@.len() != "multipv"@.len());
        assert("refutation"@ != "multipv"@);
        assert("refutation"@.len() != "depth"@.len());
        assert("refutation"@ != "depth"@);
        assert("refutation"@.len() != "seldepth"@.len());
        assert("refutation"@ != "seldepth"@);
        assert("refutation"@.len() != "time"@.len());
        assert("refutation"@ != "time"@);
        assert("refutation"@.len() != "nodes"@.len());
        assert("refutation"@ != "nodes"@);
        assert("refutation"@.len() != "pv"@.len());
        assert("refutation"@ != "pv"@);
        assert("refutation"@.len() != "score"@.len());
        assert("refutation"@ != "score"@);
        assert("refutation"@.len() != "currmove"@.len());
        assert("refutation"@ != "currmove"@);
        assert("refutation"@.len() != "currmovenumber"@.len());
        assert("refutation"@ != "currmovenumber"@);
        assert("refutation"@.len() != "hashfull"@.len());
        assert("refutation"@ != "hashfull"@);
        assert("refutation"@.len() != "nps"@.len());
        assert("refutation"@ != "nps"@);
        assert("refutation"@.len() != "tbhits"@.len());
        assert("refutation"@ != "tbhits"@);
        assert("refutation"@.len() != "sbhits"@.len());
        assert("refutation"@ != "sbhits"@);
        assert("refutation"@.len() != "cpuload"@.len());
        assert("refutation"@ != "cpuload"@);
        assert(info_words()[8] == "refutation"@);
        assert(s[0] == ' ');
        assert(!has_line_break(" refutation "@));
        lemma_render_moves_no_line_break(ms);
        lemma_line_break_concat(" refutation "@, k);
        lemma_line_break_concat(" refutation "@ + k, render_moves(ms));
        lemma_line_break_concat(" refutation "@ + k + render_moves(ms), rr);
        assert(s =~= " refutation "@ + k + render_moves(ms) + rr);
    }
}

/// Written current lines, then what may follow them, read back as those lines, each put
/// under its processor number in turn.
proof fn lemma_info_currlines(ls: Seq<(u32, Seq<Seq<char>>)>, r: Seq<char>, acc: SpecInfo)
    requires
        ends_token(r),
        first_token_among(r, info_words()),
        ls.len() > 0 ==> info_words_are_no_moves(),
        lines_of_moves(ls),
        !has_line_break(r),
    ensures
        ends_token(render_currlines(ls) + r),
        first_token_among(render_currlines(ls) + r, info_words()),
        !has_line_break(render_currlines(ls) + r),
        spec_info_args(render_currlines(ls) + r, acc) == spec_info_args(
            r,
            SpecInfo { currline: insert_lines(acc.currline, ls), ..acc },
        ),
    decreases ls.len(),
{
    reveal_strlit("currline");
    reveal_strlit(" currline ");
    reveal_strlit("cpuload");
    reveal_strlit("currline");
    reveal_strlit("currmove");
    reveal_strlit("currmovenumber");
    reveal_strlit("depth");
    reveal_strlit("hashfull");
    reveal_strlit("multipv");
    reveal_strlit("nodes");
    reveal_strlit("nps");
    reveal_strlit("pv");
    reveal_strlit("refutation");
    reveal_strlit("sbhits");
    reveal_strlit("score");
    reveal_strlit("seldepth");
    reveal_strlit("string");
    reveal_strlit("tbhits");
    reveal_strlit("time");
    if ls.len() == 0 {
        assert(render_currlines(ls) =~= Seq::<char>::empty());
        assert(render_currlines(ls) + r =~= r);
        assert(SpecInfo { currline: insert_lines(acc.currline, ls), ..acc } == acc);
    } else {
        let e = ls[0];
        let tail = ls.drop_first();
        assert(ls =~= seq![e] + tail);
        lemma_render_currlines_cons(e, tail);
        let acc2 = SpecInfo { currline: acc.currline.insert(e.0, e.1), ..acc };
        assert(lines_of_moves(tail)) by {
            assert forall|i: int| 0 <= i < tail.len() implies all_move_texts(#[trigger] tail[i].1) by {
                assert(tail[i] == ls[i + 1]);
            }
        }
        lemma_info_currlines(tail, r, acc2);
        let rr = render_currlines(tail) + r;
        assert(all_move_texts(ls[0].1));
        let k = e.0;
        let ms = e.1;
        let d = decimal(k as nat);
        lemma_decimal_is_word(k as nat);
        lemma_decimal_reads_back_from(k as nat, 0, u32::MAX as int);
        lemma_decimal_no_line_break(k as nat);
        // the moves of the line
        if let Some(w) = spec_read(rr).0 {
            let j = choose|j: int| 0 <= j < info_words().len() && info_words()[j] == w;
            assert(uci_move_text(info_words()[j]) is None);
        }
        lemma_render_moves_ends_token(ms, rr);
        lemma_parse_moves_render(Seq::<char>::empty(), ms, rr);
        assert(Seq::<char>::empty() + render_moves(ms) + rr =~= render_moves(ms) + rr);
        // the key
        lemma_read_word(seq![' '], d, render_moves(ms) + rr);
        // the word
        let s = render_currlines(ls) + r;
        assert(" currline "@ =~= seq![' '] + "currline"@ + seq![' ']);
        assert(s =~= seq![' '] + "currline"@ + (seq![' '] + d + (render_moves(ms) + rr)));
        lemma_read_word(seq![' '], "currline"@, seq![' '] + d + (render_moves(ms) + rr));
        assert(insert_lines(acc.currline, ls) == insert_lines(acc2.currline, tail));
        assert("currline"@.len() != "multipv"@.len());
        assert("currline"@ != "multipv"@);
        assert("currline"@.len() != "depth"@.len());
        assert("currline"@ != "depth"@);
        assert("currline"@[0] != "seldepth"@[0]);
        assert("currline"@ != "seldepth"@);
        assert("currline"@.len() != "time"@.len());
        assert("currline"@ != "time"@);
        assert("currline"@.len() != "nodes"@.len());
        assert("currline"@ != "nodes"@);
        assert("currline"@.len() != "pv"@.len());
        assert("currline"@ != "pv"@);
        assert("currline"@.len() != "score"@.len());
        assert("currline"@ != "score"@);
        assert("currline"@[4] != "currmove"@[4]);
        assert("currline"@ != "currmove"@);
        assert("currline"@.len() != "currmovenumber"@.len());
        assert("currline"@ != "currmovenumber"@);
        assert("currline"@[0] != "hashfull"@[0]);
        assert("currline"@ != "hashfull"@);
        assert("currline"@.len() != "nps"@.len());
        assert("currline"@ != "nps"@);
        assert("currline"@.len() != "tbhits"@.len());
        assert("currline"@ != "tbhits"@);
        assert("currline"@.len() != "sbhits"@.len());
        assert("currline"@ != "sbhits"@);
        assert("currline"@.len() != "cpuload"@.len());
        assert("currline"@ != "cpuload"@);
        assert("currline"@.len() != "refutation"@.len());
        assert("currline"@ != "refutation"@);
        assert(info_words()[9] == "currline"@);
        assert(s[0] == ' ');
        assert(!has_line_break(" currline "@));
        lemma_render_moves_no_line_break(ms);
        lemma_line_break_concat(" currline "@, d);
        lemma_line_break_concat(" currline "@ + d, render_moves(ms));
        lemma_line_break_concat(" currline "@ + d + render_moves(ms), rr);
        assert(s =~= " currline "@ + d + render_moves(ms) + rr);
    }
}

/// The map `m` with the lines `ls` put in, one after the other, each under its key.
pub open spec fn insert_lines(m: Map<u32, Seq<Seq<char>>>, ls: Seq<(u32, Seq<Seq<char>>)>) -> Map<
    u32,
    Seq<Seq<char>>,
>
    decreases ls.len(),
{
    if ls.len() == 0 {
        m
    } else {
        insert_lines(m.insert(ls[0].0, ls[0].1), ls.drop_first())
    }
}

/// Putting lines with distinct keys into `m` adds their keys, maps each to its line, and
/// keeps what `m` maps the other keys to.
proof fn lemma_insert_lines(m: Map<u32, Seq<Seq<char>>>, ls: Seq<(u32, Seq<Seq<char>>)>)
    requires
        distinct_keys(ls),
    ensures
        forall|k: u32| #[trigger]
            insert_lines(m, ls).contains_key(k) <==> (m.contains_key(k) || exists|i: int|
                0 <= i < ls.len() && ls[i].0 == k),
        forall|i: int| 0 <= i < ls.len() ==> insert_lines(m, ls)[#[trigger] ls[i].0] == ls[i].1,
        forall|k: u32|
            m.contains_key(k) && !(exists|i: int| 0 <= i < ls.len() && ls[i].0 == k)
                ==> #[trigger] insert_lines(m, ls)[k] == m[k],
    decreases ls.len(),
{
    if ls.len() > 0 {
        let e = ls[0];
        let tail = ls.drop_first();
        let m1 = m.insert(e.0, e.1);
        assert(distinct_keys(tail)) by {
            assert forall|i: int, j: int| 0 <= i < j < tail.len() implies tail[i].0 != tail[j].0 by {
                assert(tail[i] == ls[i + 1]);
                assert(tail[j] == ls[j + 1]);
            }
        }
        lemma_insert_lines(m1, tail);
        assert(insert_lines(m, ls) == insert_lines(m1, tail));
        assert forall|k: u32| #[trigger]
            insert_lines(m, ls).contains_key(k) <==> (m.contains_key(k) || exists|i: int|
                0 <= i < ls.len() && ls[i].0 == k) by {
            if exists|i: int| 0 <= i < ls.len() && ls[i].0 == k {
                let i = choose|i: int| 0 <= i < ls.len() && ls[i].0 == k;
                if i > 0 {
                    assert(tail[i - 1] == ls[i]);
                    assert(0 <= i - 1 < tail.len() && tail[i - 1].0 == k);
                } else {
                    assert(m1.contains_key(k));
                }
            }
            if exists|i: int| 0 <= i < tail.len() && tail[i].0 == k {
                let i = choose|i: int| 0 <= i < tail.len() && tail[i].0 == k;
                assert(tail[i] == ls[i + 1]);
                assert(0 <= i + 1 < ls.len() && ls[i + 1].0 == k);
            }
            if m1.contains_key(k) && !m.contains_key(k) {
                assert(k == e.0);
                assert(0 <= 0 < ls.len() && ls[0].0 == k);
            }
        }
        assert forall|i: int| 0 <= i < ls.len() implies insert_lines(m, ls)[#[trigger] ls[i].0]
            == ls[i].1 by {
            if i > 0 {
                assert(tail[i - 1] == ls[i]);
                assert(insert_lines(m1, tail)[tail[i - 1].0] == tail[i - 1].1);
            } else {
                assert forall|j: int| 0 <= j < tail.len() implies tail[j].0 != e.0 by {
                    assert(tail[j] == ls[j + 1]);
                }
                assert(m1.contains_key(e.0) && m1[e.0] == e.1);
            }
        }
        assert forall|k: u32|
            m.contains_key(k) && !(exists|i: int| 0 <= i < ls.len() && ls[i].0 == k)
                implies #[trigger] insert_lines(m, ls)[k] == m[k] by {
            assert(ls[0].0 != k);
            if exists|i: int| 0 <= i < tail.len() && tail[i].0 == k {
                let i = choose|i: int| 0 <= i < tail.len() && tail[i].0 == k;
                assert(tail[i] == ls[i + 1]);
            }
        }
    }
}

/// Putting into the empty map the lines that list `m` gives `m`.
proof fn lemma_insert_listed_lines(ls: Seq<(u32, Seq<Seq<char>>)>, m: Map<u32, Seq<Seq<char>>>)
    requires
        lists_lines(ls, m),
    ensures
        insert_lines(Map::empty(), ls) == m,
{
    lemma_insert_lines(Map::empty(), ls);
    let r = insert_lines(Map::empty(), ls);
    assert forall|k: u32| r.contains_key(k) <==> m.contains_key(k) by {
        if r.contains_key(k) {
            let i = choose|i: int| 0 <= i < ls.len() && ls[i].0 == k;
            assert(m.contains_key(ls[i].0));
        }
        if m.contains_key(k) {
            let i = choose|i: int| 0 <= i < ls.len() && ls[i].0 == k;
            assert(r.contains_key(ls[i].0));
        }
    }
    assert forall|k: u32| #[trigger] r.contains_key(k) implies r[k] == m[k] by {
        let i = choose|i: int| 0 <= i < ls.len() && ls[i].0 == k;
        assert(r[ls[i].0] == ls[i].1);
    }
    assert(r =~= m);
}

/// Lines that list current lines of moves hold moves, and name one key at most once.
pub proof fn lemma_listed_lines_of_moves(ls: Seq<(u32, Seq<Seq<char>>)>, m: Map<u32, Seq<Seq<char>>>)
    requires
        lists_lines(ls, m),
        forall|k: u32| #[trigger] m.contains_key(k) ==> all_move_texts(m[k]),
    ensures
        lines_of_moves(ls),
        distinct_keys(ls),
        ls.len() > 0 ==> exists|k: u32| m.contains_key(k),
{
    assert forall|i: int| 0 <= i < ls.len() implies all_move_texts(#[trigger] ls[i].1) by {
        assert(m.contains_key(ls[i].0));
    }
    if ls.len() > 0 {
        assert(m.contains_key(ls[0].0));
    }
}

/// Reading the fields of an `info` answer keeps its refuted moves distinct.
pub proof fn lemma_info_args_distinct(s: Seq<char>, acc: SpecInfo)
    requires
        distinct_keys(acc.refutation),
    ensures
        spec_info_args(s, acc).0 matches Ok(i) ==> distinct_keys(i.refutation),
    decreases s.len(),
{
    let (t, r) = spec_read(s);
    if let Some(w) = t {
        lemma_read_rest(s);
        lemma_read_rest(r);
        lemma_parse_moves_rest(r);
        lemma_parse_moves_rest(spec_read(r).1);
        lemma_read_until_rest(r, seq![]);
        lemma_parse_score_rest(r);
        let r2 = spec_read(r).1;
        if w == "multipv"@ {
            if let Ok(v) = spec_integer_arg(r, false, 1, u32::MAX as int).0 {
                assert(spec_info_args(s, acc) == spec_info_args(r2, SpecInfo { multipv: Some(v as u32), ..acc })) by {
                    reveal_strlit("multipv");
                }
                lemma_info_args_distinct(r2, SpecInfo { multipv: Some(v as u32), ..acc });
            }
        } else if w == "depth"@ {
            if let Ok(v) = spec_integer_arg(r, false, 0, u32::MAX as int).0 {
                assert(spec_info_args(s, acc) == spec_info_args(r2, SpecInfo { depth: Some(v as u32), ..acc })) by {
                    reveal_strlit("depth");
                    reveal_strlit("multipv");
                    assert("depth"@.len() != "multipv"@.len());
                    assert("depth"@ != "multipv"@);
                }
                lemma_info_args_distinct(r2, SpecInfo { depth: Some(v as u32), ..acc });
            }
        } else if w == "seldepth"@ {
            if let Ok(v) = spec_integer_arg(r, false, 0, u32::MAX as int).0 {
                assert(spec_info_args(s, acc) == spec_info_args(r2, SpecInfo { seldepth: Some(v as u32), ..acc })) by {
                    reveal_strlit("depth");
                    reveal_strlit("multipv");
                    reveal_strlit("seldepth");
                    assert("seldepth"@.len() != "multipv"@.len());
                    assert("seldepth"@ != "multipv"@);
                    assert("seldepth"@.len() != "depth"@.len());
                    assert("seldepth"@ != "depth"@);
                }
                lemma_info_args_distinct(r2, SpecInfo { seldepth: Some(v as u32), ..acc });
            }
        } else if w == "time"@ {
            if let Ok(v) = spec_integer_arg(r, false, 0, u64::MAX as int).0 {
                assert(spec_info_args(s, acc) == spec_info_args(r2, SpecInfo { time: Some(v as u64), ..acc })) by {
                    reveal_strlit("depth");
                    reveal_strlit("multipv");
                    reveal_strlit("seldepth");
                    reveal_strlit("time");
                    assert("time"@.len() != "multipv"@.len());
                    assert("time"@ != "multipv"@);
                    assert("time"@.len() != "depth"@.len());
                    assert("time"@ != "depth"@);
                    assert("time"@.len() != "seldepth"@.len());
                    assert("time"@ != "seldepth"@);
                }
                lemma_info_args_distinct(r2, SpecInfo { time: Some(v as u64), ..acc });
            }
        } else if w == "nodes"@ {
            if let Ok(v) = spec_integer_arg(r, false, 0, u64::MAX as int).0 {
                assert(spec_info_args(s, acc) == spec_info_args(r2, SpecInfo { nodes: Some(v as u64), ..acc })) by {
                    reveal_strlit("depth");
                    reveal_strlit("multipv");
                    reveal_strlit("nodes");
                    reveal_strlit("seldepth");
                    reveal_strlit("time");
                    assert("nodes"@.len() != "multipv"@.len());
                    assert("nodes"@ != "multipv"@);
                    assert("nodes"@[0] != "depth"@[0]);
                    assert("nodes"@ != "depth"@);
                    assert("nodes"@.len() != "seldepth"@.len());
                    assert("nodes"@ != "seldepth"@);
                    assert("nodes"@.len() != "time"@.len());
                    assert("nodes"@ != "time"@);
                }
                lemma_info_args_distinct(r2, SpecInfo { nodes: Some(v as u64), ..acc });
            }
        } else if w == "pv"@ {
            let (ms, r3) = spec_parse_moves(r);
            assert(spec_info_args(s, acc) == spec_info_args(r3, SpecInfo { pv: Some(ms), ..acc })) by {
                reveal_strlit("depth");
                reveal_strlit("multipv");
                reveal_strlit("nodes");
                reveal_strlit("pv");
                reveal_strlit("seldepth");
                reveal_strlit("time");
                assert("pv"@.len() != "multipv"@.len());
                assert("pv"@ != "multipv"@);
                assert("pv"@.len() != "depth"@.len());
                assert("pv"@ != "depth"@);
                assert("pv"@.len() != "seldepth"@.len());
                assert("pv"@ != "seldepth"@);
                assert("pv"@.len() != "time"@.len());
                assert("pv"@ != "time"@);
                assert("pv"@.len() != "nodes"@.len());
                assert("pv"@ != "nodes"@);
            }
            lemma_info_args_distinct(r3, SpecInfo { pv: Some(ms), ..acc });
        } else if w == "score"@ {
            if let Ok(v) = spec_parse_score(r).0 {
                assert(spec_info_args(s, acc) == spec_info_args(spec_parse_score(r).1, SpecInfo { score: Some(v), ..acc })) by {
                    reveal_strlit("depth");
                    reveal_strlit("multipv");
                    reveal_strlit("nodes");
                    reveal_strlit("pv");
                    reveal_strlit("score");
                    reveal_strlit("seldepth");
                    reveal_strlit("time");
                    assert("score"@.len() != "multipv"@.len());
                    assert("score"@ != "multipv"@);
                    assert("score"@[0] != "depth"@[0]);
                    assert("score"@ != "depth"@);
                    assert("score"@.len() != "seldepth"@.len());
                    assert("score"@ != "seldepth"@);
                    assert("score"@.len() != "time"@.len());
                    assert("score"@ != "time"@);
                    assert("score"@[0] != "nodes"@[0]);
                    assert("score"@ != "nodes"@);
                    assert("score"@.len() != "pv"@.len());
                    assert("score"@ != "pv"@);
                }
                lemma_info_args_distinct(spec_parse_score(r).1, SpecInfo { score: Some(v), ..acc });
            }
        } else if w == "currmove"@ {
            if let Ok(v) = spec_move_arg(r).0 {
                assert(spec_info_args(s, acc) == spec_info_args(r2, SpecInfo { currmove: Some(v), ..acc })) by {
                    reveal_strlit("currmove");
                    reveal_strlit("depth");
                    reveal_strlit("multipv");
                    reveal_strlit("nodes");
                    reveal_strlit("pv");
                    reveal_strlit("score");
                    reveal_strlit("seldepth");
                    reveal_strlit("time");
                    assert("currmove"@.len() != "multipv"@.len());
                    assert("currmove"@ != "multipv"@);
                    assert("currmove"@.len() != "depth"@.len());
                    assert("currmove"@ != "depth"@);
                    assert("currmove"@[0] != "seldepth"@[0]);
                    assert("currmove"@ != "seldepth"@);
                    assert("currmove"@.len() != "time"@.len());
                    assert("currmove"@ != "time"@);
                    assert("currmove"@.len() != "nodes"@.len());
                    assert("currmove"@ != "nodes"@);
                    assert("currmove"@.len() != "pv"@.len());
                    assert("currmove"@ != "pv"@);
                    assert("currmove"@.len() != "score"@.len());
                    assert("currmove"@ != "score"@);
                }
                lemma_info_args_distinct(r2, SpecInfo { currmove: Some(v), ..acc });
            }
        } else if w == "currmovenumber"@ {
            if let Ok(v) = spec_integer_arg(r, false, 0, u32::MAX as int).0 {
                assert(spec_info_args(s, acc) == spec_info_args(r2, SpecInfo { currmovenumber: Some(v as u32), ..acc })) by {
                    reveal_strlit("currmove");
                    reveal_strlit("currmovenumber");
                    reveal_strlit("depth");
                    reveal_strlit("multipv");
                    reveal_strlit("nodes");
                    reveal_strlit("pv");
                    reveal_strlit("score");
                    reveal_strlit("seldepth");
                    reveal_strlit("time");
                    assert("currmovenumber"@.len() != "multipv"@.len());
                    assert("currmovenumber"@ != "multipv"@);
                    assert("currmovenumber"@.len() != "depth"@.len());
                    assert("currmovenumber"@ != "depth"@);
                    assert("currmovenumber"@.len() != "seldepth"@.len());
                    assert("currmovenumber"@ != "seldepth"@);
                    assert("currmovenumber"@.len() != "time"@.len());
                    assert("currmovenumber"@ != "time"@);
                    assert("currmovenumber"@.len() != "nodes"@.len());
                    assert("currmovenumber"@ != "nodes"@);
                    assert("currmovenumber"@.len() != "pv"@.len());
                    assert("currmovenumber"@ != "pv"@);
                    assert("currmovenumber"@.len() != "score"@.len());
                    assert("currmovenumber"@ != "score"@);
                    assert("currmovenumber"@.len() != "currmove"@.len());
                    assert("currmovenumber"@ != "currmove"@);
                }
                lemma_info_args_distinct(r2, SpecInfo { currmovenumber: Some(v as u32), ..acc });
            }
        } else if w == "hashfull"@ {
            if let Ok(v) = spec_integer_arg(r, false, 0, u32::MAX as int).0 {
                assert(spec_info_args(s, acc) == spec_info_args(r2, SpecInfo { hashfull: Some(v as u32), ..acc })) by {
                    reveal_strlit("currmove");
                    reveal_strlit("currmovenumber");
                    reveal_strlit("depth");
                    reveal_strlit("hashfull");
                    reveal_strlit("multipv");
                    reveal_strlit("nodes");
                    reveal_strlit("pv");
                    reveal_strlit("score");
                    reveal_strlit("seldepth");
                    reveal_strlit("time");
                    assert("hashfull"@.len() != "multipv"@.len());
                    assert("hashfull"@ != "multipv"@);
                    assert("hashfull"@.len() != "depth"@.len());
                    assert("hashfull"@ != "depth"@);
                    assert("hashfull"@[0] != "seldepth"@[0]);
                    assert("hashfull"@ != "seldepth"@);
                    assert("hashfull"@.len() != "time"@.len());
                    assert("hashfull"@ != "time"@);
                    assert("hashfull"@.len() != "nodes"@.len());
                    assert("hashfull"@ != "nodes"@);
                    assert("hashfull"@.len() != "pv"@.len());
                    assert("hashfull"@ != "pv"@);
                    assert("hashfull"@.len() != "score"@.len());
                    assert("hashfull"@ != "score"@);
                    assert("hashfull"@[0] != "currmove"@[0]);
                    assert("hashfull"@ != "currmove"@);
                    assert("hashfull"@.len() != "currmovenumber"@.len());
                    assert("hashfull"@ != "currmovenumber"@);
                }
                lemma_info_args_distinct(r2, SpecInfo { hashfull: Some(v as u32), ..acc });
            }
        } else if w == "nps"@ {
            if let Ok(v) = spec_integer_arg(r, false, 0, u64::MAX as int).0 {
                assert(spec_info_args(s, acc) == spec_info_args(r2, SpecInfo { nps: Some(v as u64), ..acc })) by {
                    reveal_strlit("currmove");
                    reveal_strlit("currmovenumber");
                    reveal_strlit("depth");
                    reveal_strlit("hashfull");
                    reveal_strlit("multipv");
                    reveal_strlit("nodes");
                    reveal_strlit("nps");
                    reveal_strlit("pv");
                    reveal_strlit("score");
                    reveal_strlit("seldepth");
                    reveal_strlit("time");
                    assert("nps"@.len() != "multipv"@.len());
                    assert("nps"@ != "multipv"@);
                    assert("nps"@.len() != "depth"@.len());
                    assert("nps"@ != "depth"@);
                    assert("nps"@.len() != "seldepth"@.len());
                    assert("nps"@ != "seldepth"@);
                    assert("nps"@.len() != "time"@.len());
                    assert("nps"@ != "time"@);
                    assert("nps"@.len() != "nodes"@.len());
                    assert("nps"@ != "nodes"@);
                    assert("nps"@.len() != "pv"@.len());
                    assert("nps"@ != "pv"@);
                    assert("nps"@.len() != "score"@.len());
                    assert("nps"@ != "score"@);
                    assert("nps"@.len() != "currmove"@.len());
                    assert("nps"@ != "currmove"@);
                    assert("nps"@.len() != "currmovenumber"@.len());
                    assert("nps"@ != "currmovenumber"@);
                    assert("nps"@.len() != "hashfull"@.len());
                    assert("nps"@ != "hashfull"@);
                }
                lemma_info_args_distinct(r2, SpecInfo { nps: Some(v as u64), ..acc });
            }
        } else if w == "tbhits"@ {
            if let Ok(v) = spec_integer_arg(r, false, 0, u64::MAX as int).0 {
                assert(spec_info_args(s, acc) == spec_info_args(r2, SpecInfo { tbhits: Some(v as u64), ..acc })) by {
                    reveal_strlit("currmove");
                    reveal_strlit("currmovenumber");
                    reveal_strlit("depth");
                    reveal_strlit("hashfull");
                    reveal_strlit("multipv");
                    reveal_strlit("nodes");
                    reveal_strlit("nps");
                    reveal_strlit("pv");
                    reveal_strlit("score");
                    reveal_strlit("seldepth");
                    reveal_strlit("tbhits");
                    reveal_strlit("time");
                    assert("tbhits"@.len() != "multipv"@.len());
                    assert("tbhits"@ != "multipv"@);
                    assert("tbhits"@.len() != "depth"@.len());
                    assert("tbhits"@ != "depth"@);
                    assert("tbhits"@.len() != "seldepth"@.len());
                    assert("tbhits"@ != "seldepth"@);
                    assert("tbhits"@.len() != "time"@.len());
                    assert("tbhits"@ != "time"@);
                    assert("tbhits"@.len() != "nodes"@.len());
                    assert("tbhits"@ != "nodes"@);
                    assert("tbhits"@.len() != "pv"@.len());
                    assert("tbhits"@ != "pv"@);
                    assert("tbhits"@.len() != "score"@.len());
                    assert("tbhits"@ != "score"@);
                    assert("tbhits"@.len() != "currmove"@.len());
                    assert("tbhits"@ != "currmove"@);
                    assert("tbhits"@.len() != "currmovenumber"@.len());
                    assert("tbhits"@ != "currmovenumber"@);
                    assert("tbhits"@.len() != "hashfull"@.len());
                    assert("tbhits"@ != "hashfull"@);
                    assert("tbhits"@.len() != "nps"@.len());
                    assert("tbhits"@ != "nps"@);
                }
                lemma_info_args_distinct(r2, SpecInfo { tbhits: Some(v as u64), ..acc });
            }
        } else if w == "sbhits"@ {
            if let Ok(v) = spec_integer_arg(r, false, 0, u64::MAX as int).0 {
                assert(spec_info_args(s, acc) == spec_info_args(r2, SpecInfo { sbhits: Some(v as u64), ..acc })) by {
                    reveal_strlit("currmove");
                    reveal_strlit("currmovenumber");
                    reveal_strlit("depth");
                    reveal_strlit("hashfull");
                    reveal_strlit("multipv");
                    reveal_strlit("nodes");
                    reveal_strlit("nps");
                    reveal_strlit("pv");
                    reveal_strlit("sbhits");
                    reveal_strlit("score");
                    reveal_strlit("seldepth");
                    reveal_strlit("tbhits");
                    reveal_strlit("time");
                    assert("sbhits"@.len() != "multipv"@.len());
                    assert("sbhits"@ != "multipv"@);
                    assert("sbhits"@.len() != "depth"@.len());
                    assert("sbhits"@ != "depth"@);
                    assert("sbhits"@.len() != "seldepth"@.len());
                    assert("sbhits"@ != "seldepth"@);
                    assert("sbhits"@.len() != "time"@.len());
                    assert("sbhits"@ != "time"@);
                    assert("sbhits"@.len() != "nodes"@.len());
                    assert("sbhits"@ != "nodes"@);
                    assert("sbhits"@.len() != "pv"@.len());
                    assert("sbhits"@ != "pv"@);
                    assert("sbhits"@.len() != "score"@.len());
                    assert("sbhits"@ != "score"@);
                    assert("sbhits"@.len() != "currmove"@.len());
                    assert("sbhits"@ != "currmove"@);
                    assert("sbhits"@.len() != "currmovenumber"@.len());
                    assert("sbhits"@ != "currmovenumber"@);
                    assert("sbhits"@.len() != "hashfull"@.len());
                    assert("sbhits"@ != "hashfull"@);
                    assert("sbhits"@.len() != "nps"@.len());
                    assert("sbhits"@ != "nps"@);
                    assert("sbhits"@[0] != "tbhits"@[0]);
                    assert("sbhits"@ != "tbhits"@);
                }
                lemma_info_args_distinct(r2, SpecInfo { sbhits: Some(v as u64), ..acc });
            }
        } else if w == "cpuload"@ {
            if let Ok(v) = spec_integer_arg(r, false, 0, u32::MAX as int).0 {
                assert(spec_info_args(s, acc) == spec_info_args(r2, SpecInfo { cpuload: Some(v as u32), ..acc })) by {
                    reveal_strlit("cpuload");
                    reveal_strlit("currmove");
                    reveal_strlit("currmovenumber");
                    reveal_strlit("depth");
                    reveal_strlit("hashfull");
                    reveal_strlit("multipv");
                    reveal_strlit("nodes");
                    reveal_strlit("nps");
                    reveal_strlit("pv");
                    reveal_strlit("sbhits");
                    reveal_strlit("score");
                    reveal_strlit("seldepth");
                    reveal_strlit("tbhits");
                    reveal_strlit("time");
                    assert("cpuload"@[0] != "multipv"@[0]);
                    assert("cpuload"@ != "multipv"@);
                    assert("cpuload"@.len() != "depth"@.len());
                    assert("cpuload"@ != "depth"@);
                    assert("cpuload"@.len() != "seldepth"@.len());
                    assert("cpuload"@ != "seldepth"@);
                    assert("cpuload"@.len() != "time"@.len());
                    assert("cpuload"@ != "time"@);
                    assert("cpuload"@.len() != "nodes"@.len());
                    assert("cpuload"@ != "nodes"@);
                    assert("cpuload"@.len() != "pv"@.len());
                    assert("cpuload"@ != "pv"@);
                    assert("cpuload"@.len() != "score"@.len());
                    assert("cpuload"@ != "score"@);
                    assert("cpuload"@.len() != "currmove"@.len());
                    assert("cpuload"@ != "currmove"@);
                    assert("cpuload"@.len() != "currmovenumber"@.len());
                    assert("cpuload"@ != "currmovenumber"@);
                    assert("cpuload"@.len() != "hashfull"@.len());
                    assert("cpuload"@ != "hashfull"@);
                    assert("cpuload"@.len() != "nps"@.len());
                    assert("cpuload"@ != "nps"@);
                    assert("cpuload"@.len() != "tbhits"@.len());
                    assert("cpuload"@ != "tbhits"@);
                    assert("cpuload"@.len() != "sbhits"@.len());
                    assert("cpuload"@ != "sbhits"@);
                }
                lemma_info_args_distinct(r2, SpecInfo { cpuload: Some(v as u32), ..acc });
            }
        } else if w == "refutation"@ {
            if let Ok(k) = spec_move_arg(r).0 {
                let (ms, r3) = spec_parse_moves(r2);
                lemma_line_insert_distinct(acc.refutation, k, ms);
                assert(spec_info_args(s, acc) == spec_info_args(r3, SpecInfo { refutation: line_insert(acc.refutation, k, ms), ..acc })) by {
                    reveal_strlit("cpuload");
                    reveal_strlit("currmove");
                    reveal_strlit("currmovenumber");
                    reveal_strlit("depth");
                    reveal_strlit("hashfull");
                    reveal_strlit("multipv");
                    reveal_strlit("nodes");
                    reveal_strlit("nps");
                    reveal_strlit("pv");
                    reveal_strlit("refutation");
                    reveal_strlit("sbhits");
                    reveal_strlit("score");
                    reveal_strlit("seldepth");
                    reveal_strlit("tbhits");
                    reveal_strlit("time");
                    assert("refutation"@.len() != "multipv"@.len());
                    assert("refutation"@ != "multipv"@);
                    assert("refutation"@.len() != "depth"@.len());
                    assert("refutation"@ != "depth"@);
                    assert("refutation"@.len() != "seldepth"@.len());
                    assert("refutation"@ != "seldepth"@);
                    assert("refutation"@.len() != "time"@.len());
                    assert("refutation"@ != "time"@);
                    assert("refutation"@.len() != "nodes"@.len());
                    assert("refutation"@ != "nodes"@);
                    assert("refutation"@.len() != "pv"@.len());
                    assert("refutation"@ != "pv"@);
                    assert("refutation"@.len() != "score"@.len());
                    assert("refutation"@ != "score"@);
                    assert("refutation"@.len() != "currmove"@.len());
                    assert("refutation"@ != "currmove"@);
                    assert("refutation"@.len() != "currmovenumber"@.len());
                    assert("refutation"@ != "currmovenumber"@);
                    assert("refutation"@.len() != "hashfull"@.len());
                    assert("refutation"@ != "hashfull"@);
                    assert("refutation"@.len() != "nps"@.len());
                    assert("refutation"@ != "nps"@);
                    assert("refutation"@.len() != "tbhits"@.len());
                    assert("refutation"@ != "tbhits"@);
                    assert("refutation"@.len() != "sbhits"@.len());
                    assert("refutation"@ != "sbhits"@);
                    assert("refutation"@.len() != "cpuload"@.len());
                    assert("refutation"@ != "cpuload"@);
                }
                lemma_info_args_distinct(r3, SpecInfo { refutation: line_insert(acc.refutation, k, ms), ..acc });
            }
        } else if w == "currline"@ {
            if let Ok(k) = spec_integer_arg(r, false, 0, u32::MAX as int).0 {
                let (ms, r3) = spec_parse_moves(r2);
                assert(spec_info_args(s, acc) == spec_info_args(r3, SpecInfo { currline: acc.currline.insert(k as u32, ms), ..acc })) by {
                    reveal_strlit("cpuload");
                    reveal_strlit("currline");
                    reveal_strlit("currmove");
                    reveal_strlit("currmovenumber");
                    reveal_strlit("depth");
                    reveal_strlit("hashfull");
                    reveal_strlit("multipv");
                    reveal_strlit("nodes");
                    reveal_strlit("nps");
                    reveal_strlit("pv");
                    reveal_strlit("refutation");
                    reveal_strlit("sbhits");
                    reveal_strlit("score");
                    reveal_strlit("seldepth");
                    reveal_strlit("tbhits");
                    reveal_strlit("time");
                    assert("currline"@.len() != "multipv"@.len());
                    assert("currline"@ != "multipv"@);
                    assert("currline"@.len() != "depth"@.len());
                    assert("currline"@ != "depth"@);
                    assert("currline"@[0] != "seldepth"@[0]);
                    assert("currline"@ != "seldepth"@);
                    assert("currline"@.len() != "time"@.len());
                    assert("currline"@ != "time"@);
                    assert("currline"@.len() != "nodes"@.len());
                    assert("currline"@ != "nodes"@);
                    assert("currline"@.len() != "pv"@.len());
                    assert("currline"@ != "pv"@);
                    assert("currline"@.len() != "score"@.len());
                    assert("currline"@ != "score"@);
                    assert("currline"@[4] != "currmove"@[4]);
                    assert("currline"@ != "currmove"@);
                    assert("currline"@.len() != "currmovenumber"@.len());
                    assert("currline"@ != "currmovenumber"@);
                    assert("currline"@[0] != "hashfull"@[0]);
                    assert("currline"@ != "hashfull"@);
                    assert("currline"@.len() != "nps"@.len());
                    assert("currline"@ != "nps"@);
                    assert("currline"@.len() != "tbhits"@.len());
                    assert("currline"@ != "tbhits"@);
                    assert("currline"@.len() != "sbhits"@.len());
                    assert("currline"@ != "sbhits"@);
                    assert("currline"@.len() != "cpuload"@.len());
                    assert("currline"@ != "cpuload"@);
                    assert("currline"@.len() != "refutation"@.len());
                    assert("currline"@ != "refutation"@);
                }
                lemma_info_args_distinct(r3, SpecInfo { currline: acc.currline.insert(k as u32, ms), ..acc });
            }
        } else if w == "string"@ {
            let (v, r3) = spec_read_until(r, seq![]);
            let text = match v {
                Some(v) => v,
                None => seq![],
            };
            assert(spec_info_args(s, acc) == spec_info_args(r3, SpecInfo { string: Some(text), ..acc })) by {
                reveal_strlit("cpuload");
                reveal_strlit("currline");
                reveal_strlit("currmove");
                reveal_strlit("currmovenumber");
                reveal_strlit("depth");
                reveal_strlit("hashfull");
                reveal_strlit("multipv");
                reveal_strlit("nodes");
                reveal_strlit("nps");
                reveal_strlit("pv");
                reveal_strlit("refutation");
                reveal_strlit("sbhits");
                reveal_strlit("score");
                reveal_strlit("seldepth");
                reveal_strlit("string");
                reveal_strlit("tbhits");
                reveal_strlit("time");
                assert("string"@.len() != "multipv"@.len());
                assert("string"@ != "multipv"@);
                assert("string"@.len() != "depth"@.len());
                assert("string"@ != "depth"@);
                assert("string"@.len() != "seldepth"@.len());
                assert("string"@ != "seldepth"@);
                assert("string"@.len() != "time"@.len());
                assert("string"@ != "time"@);
                assert("string"@.len() != "nodes"@.len());
                assert("string"@ != "nodes"@);
                assert("string"@.len() != "pv"@.len());
                assert("string"@ != "pv"@);
                assert("string"@.len() != "score"@.len());
                assert("string"@ != "score"@);
                assert("string"@.len() != "currmove"@.len());
                assert("string"@ != "currmove"@);
                assert("string"@.len() != "currmovenumber"@.len());
                assert("string"@ != "currmovenumber"@);
                assert("string"@.len() != "hashfull"@.len());
                assert("string"@ != "hashfull"@);
                assert("string"@.len() != "nps"@.len());
                assert("string"@ != "nps"@);
                assert("string"@[0] != "tbhits"@[0]);
                assert("string"@ != "tbhits"@);
                assert("string"@[1] != "sbhits"@[1]);
                assert("string"@ != "sbhits"@);
                assert("string"@.len() != "cpuload"@.len());
                assert("string"@ != "cpuload"@);
                assert("string"@.len() != "refutation"@.len());
                assert("string"@ != "refutation"@);
                assert("string"@.len() != "currline"@.len());
                assert("string"@ != "currline"@);
            }
            lemma_info_args_distinct(r3, SpecInfo { string: Some(text), ..acc });
        }
    }
}

/// Whether the fields of an `info` answer read back from the text that is written for
/// them: a multipv is at least one, moves are moves as `shakmaty` writes them, no refuted
/// move occurs twice, the lines hold moves, and the string starts with a word character
/// (or is empty) and holds no line break. The view of every `UciOut` meets all but the
/// last: `MultiPv`, `UciMove` and `Refutations` hold them as invariants.
pub open spec fn info_reads_back(i: SpecInfo) -> bool {
    &&& (i.multipv matches Some(n) ==> n >= 1)
    &&& (i.pv matches Some(ms) ==> all_move_texts(ms))
    &&& (i.currmove matches Some(m) ==> is_move_text(m))
    &&& distinct_keys(i.refutation)
    &&& lines_of_moves(i.refutation)
    &&& (forall|j: int| 0 <= j < i.refutation.len() ==> is_move_text(#[trigger] i.refutation[j].0))
    &&& (forall|k: u32| #[trigger] i.currline.contains_key(k) ==> all_move_texts(i.currline[k]))
    &&& (i.string matches Some(t) ==> (t.len() == 0 || !is_separator_char(t[0])) && !has_line_break(t))
}

/// The fields of a written `info` answer read back as those fields.
#[verifier::rlimit(50)]
pub proof fn lemma_info_pieces_read_back(i: SpecInfo, lines: Seq<(u32, Seq<Seq<char>>)>)
    requires
        info_reads_back(i),
        lists_lines(lines, i.currline),
    ensures
        ends_token(info_pieces(i, lines)),
        !has_line_break(info_pieces(i, lines)),
        spec_info_args(info_pieces(i, lines), info_start()) == (Ok::<SpecInfo, ErrorKind>(i), Seq::<char>::empty()),
{
    lemma_info_words_are_no_moves();
    lemma_listed_lines_of_moves(lines, i.currline);
    lemma_insert_listed_lines(lines, i.currline);
    let acc0 = info_start();
    let acc1 = SpecInfo { multipv: i.multipv, ..acc0 };
    let acc2 = SpecInfo { depth: i.depth, ..acc1 };
    let acc3 = SpecInfo { seldepth: i.seldepth, ..acc2 };
    let acc4 = SpecInfo { time: i.time, ..acc3 };
    let acc5 = SpecInfo { nodes: i.nodes, ..acc4 };
    let acc6 = SpecInfo { pv: i.pv, ..acc5 };
    let acc7 = SpecInfo { score: i.score, ..acc6 };
    let acc8 = SpecInfo { currmove: i.currmove, ..acc7 };
    let acc9 = SpecInfo { currmovenumber: i.currmovenumber, ..acc8 };
    let acc10 = SpecInfo { hashfull: i.hashfull, ..acc9 };
    let acc11 = SpecInfo { nps: i.nps, ..acc10 };
    let acc12 = SpecInfo { tbhits: i.tbhits, ..acc11 };
    let acc13 = SpecInfo { sbhits: i.sbhits, ..acc12 };
    let acc14 = SpecInfo { cpuload: i.cpuload, ..acc13 };
    let acc15 = SpecInfo { refutation: acc14.refutation + i.refutation, ..acc14 };
    let acc16 = SpecInfo { currline: insert_lines(acc15.currline, lines), ..acc15 };
    let acc17 = SpecInfo { string: i.string, ..acc16 };
    let r17 = Seq::<char>::empty();
    let r16 = render_text(" string "@, i.string) + r17;
    let r15 = render_currlines(lines) + r16;
    let r14 = render_refutations(i.refutation) + r15;
    let r13 = render_number(" cpuload "@, nat_of_u32(i.cpuload)) + r14;
    let r12 = render_number(" sbhits "@, nat_of_u64(i.sbhits)) + r13;
    let r11 = render_number(" tbhits "@, nat_of_u64(i.tbhits)) + r12;
    let r10 = render_number(" nps "@, nat_of_u64(i.nps)) + r11;
    let r9 = render_number(" hashfull "@, nat_of_u32(i.hashfull)) + r10;
    let r8 = render_number(" currmovenumber "@, nat_of_u32(i.currmovenumber)) + r9;
    let r7 = render_text(" currmove "@, i.currmove) + r8;
    let r6 = (match i.score { Some(s) => " score "@ + render_score(s), None => seq![] }) + r7;
    let r5 = (match i.pv { Some(ms) => " pv"@ + render_moves(ms), None => seq![] }) + r6;
    let r4 = render_number(" nodes "@, nat_of_u64(i.nodes)) + r5;
    let r3 = render_number(" time "@, nat_of_u64(i.time)) + r4;
    let r2 = render_number(" seldepth "@, nat_of_u32(i.seldepth)) + r3;
    let r1 = render_number(" depth "@, nat_of_u32(i.depth)) + r2;
    let r0 = render_number(" multipv "@, nat_of_u32(i.multipv)) + r1;
    assert(info_pieces(i, lines) == r0);
    assert(!has_line_break(r17));
    crate::text_lemmas::lemma_read_blank(r17);
    lemma_info_piece_string(i.string, r17, acc16);
    lemma_info_currlines(lines, r16, acc15);
    lemma_info_refutations(i.refutation, r15, acc14);
    lemma_info_piece_cpuload(i.cpuload, r14, acc13);
    lemma_info_piece_sbhits(i.sbhits, r13, acc12);
    lemma_info_piece_tbhits(i.tbhits, r12, acc11);
    lemma_info_piece_nps(i.nps, r11, acc10);
    lemma_info_piece_hashfull(i.hashfull, r10, acc9);
    lemma_info_piece_currmovenumber(i.currmovenumber, r9, acc8);
    lemma_info_piece_currmove(i.currmove, r8, acc7);
    lemma_info_piece_score(i.score, r7, acc6);
    if let Some(ms) = i.pv {
        if let Some(w) = spec_read(r6).0 {
            let j = choose|j: int| 0 <= j < info_words().len() && info_words()[j] == w;
            assert(uci_move_text(info_words()[j]) is None);
        }
    }
    lemma_info_piece_pv(i.pv, r6, acc5);
    lemma_info_piece_nodes(i.nodes, r5, acc4);
    lemma_info_piece_time(i.time, r4, acc3);
    lemma_info_piece_seldepth(i.seldepth, r3, acc2);
    lemma_info_piece_depth(i.depth, r2, acc1);
    lemma_info_piece_multipv(i.multipv, r1, acc0);
    assert(acc17.refutation =~= i.refutation);
    assert(acc17.currline =~= i.currline);
    assert(acc17 == i);
}

/// A written `info` answer is the word `info` and then its fields.
pub proof fn lemma_render_info_split(i: SpecInfo, lines: Seq<(u32, Seq<Seq<char>>)>)
    ensures
        render_info(i, lines) == "info"@ + info_pieces(i, lines),
{
    let l0 = "info"@;
    let p1 = render_number(" multipv "@, nat_of_u32(i.multipv));
    let p2 = render_number(" depth "@, nat_of_u32(i.depth));
    let p3 = render_number(" seldepth "@, nat_of_u32(i.seldepth));
    let p4 = render_number(" time "@, nat_of_u64(i.time));
    let p5 = render_number(" nodes "@, nat_of_u64(i.nodes));
    let p6 = (match i.pv { Some(ms) => " pv"@ + render_moves(ms), None => seq![] });
    let p7 = (match i.score { Some(s) => " score "@ + render_score(s), None => seq![] });
    let p8 = render_text(" currmove "@, i.currmove);
    let p9 = render_number(" currmovenumber "@, nat_of_u32(i.currmovenumber));
    let p10 = render_number(" hashfull "@, nat_of_u32(i.hashfull));
    let p11 = render_number(" nps "@, nat_of_u64(i.nps));
    let p12 = render_number(" tbhits "@, nat_of_u64(i.tbhits));
    let p13 = render_number(" sbhits "@, nat_of_u64(i.sbhits));
    let p14 = render_number(" cpuload "@, nat_of_u32(i.cpuload));
    let p15 = render_refutations(i.refutation);
    let p16 = render_currlines(lines);
    let p17 = render_text(" string "@, i.string);
    let l1 = l0 + p1;
    let l2 = l1 + p2;
    let l3 = l2 + p3;
    let l4 = l3 + p4;
    let l5 = l4 + p5;
    let l6 = l5 + p6;
    let l7 = l6 + p7;
    let l8 = l7 + p8;
    let l9 = l8 + p9;
    let l10 = l9 + p10;
    let l11 = l10 + p11;
    let l12 = l11 + p12;
    let l13 = l12 + p13;
    let l14 = l13 + p14;
    let l15 = l14 + p15;
    let l16 = l15 + p16;
    let l17 = l16 + p17;
    let r18 = Seq::<char>::empty();
    let r17 = p17 + r18;
    let r16 = p16 + r17;
    let r15 = p15 + r16;
    let r14 = p14 + r15;
    let r13 = p13 + r14;
    let r12 = p12 + r13;
    let r11 = p11 + r12;
    let r10 = p10 + r11;
    let r9 = p9 + r10;
    let r8 = p8 + r9;
    let r7 = p7 + r8;
    let r6 = p6 + r7;
    let r5 = p5 + r6;
    let r4 = p4 + r5;
    let r3 = p3 + r4;
    let r2 = p2 + r3;
    let r1 = p1 + r2;
    assert(render_info(i, lines) == l17);
    assert(info_pieces(i, lines) == r1);
    assert(l17 + r18 =~= l17);
    crate::laws::lemma_add_assoc(l16, p17, r18);
    crate::laws::lemma_add_assoc(l15, p16, r17);
    crate::laws::lemma_add_assoc(l14, p15, r16);
    crate::laws::lemma_add_assoc(l13, p14, r15);
    crate::laws::lemma_add_assoc(l12, p13, r14);
    crate::laws::lemma_add_assoc(l11, p12, r13);
    crate::laws::lemma_add_assoc(l10, p11, r12);
    crate::laws::lemma_add_assoc(l9, p10, r11);
    crate::laws::lemma_add_assoc(l8, p9, r10);
    crate::laws::lemma_add_assoc(l7, p8, r9);
    crate::laws::lemma_add_assoc(l6, p7, r8);
    crate::laws::lemma_add_assoc(l5, p6, r7);
    crate::laws::lemma_add_assoc(l4, p5, r6);
    crate::laws::lemma_add_assoc(l3, p4, r5);
    crate::laws::lemma_add_assoc(l2, p3, r4);
    crate::laws::lemma_add_assoc(l1, p2, r3);
    crate::laws::lemma_add_assoc(l0, p1, r2);
}

} // verus!
