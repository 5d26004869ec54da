//! What holds of the library as a whole.

use vstd::prelude::*;
use crate::chess::{fen_text, is_file_char, is_rank_char, lemma_move_token_shape, uci_move_text};
use crate::line_break::{has_line_break, lemma_ascii_scalar};
use vstd::utf8::{encode_scalar, encode_utf8};
use crate::numbers::{decimal, lemma_decimal_is_word, lemma_decimal_reads_back};
use crate::parser::{go_start, spec_go_args, spec_uci_in_from_line, spec_uci_out_from_line};
use crate::readback::{
    all_move_texts, lemma_decimal_no_line_break, lemma_line_break_concat,
    lemma_parse_all_moves_render, lemma_parse_moves_render, lemma_render_moves_ends_token,
    lemma_render_moves_no_line_break, no_move_follows,
};
use crate::render::{
    nat_of_u32, nat_of_u64, render_flag, render_go, render_in, render_moves, render_number,
    render_text,
};
use crate::text_lemmas::{
    all_separators, ends_token, is_phrase, is_word, lemma_read_blank, lemma_read_rest_of_line,
    lemma_read_until_phrase, lemma_read_word,
};
use crate::tokens::{
    first_stop_from, is_separator_char, leading_separators, lemma_first_stop_bounds,
    lemma_leading_separators, lemma_read_rest, lemma_word_length, spec_read, spec_read_until,
    stop_follows,
    trim_separators, word_length,
};
use crate::types::{
    ascii_folded, ascii_lowercase_byte, option_name_hash_input, same_ignoring_ascii_case,
    ErrorKind, SpecGo, SpecUciIn, SpecUciOut,
};

verus! {

/// The words that may follow the moves of `searchmoves` in a written `go` command.
pub open spec fn go_words() -> Seq<Seq<char>> {
    seq!["ponder"@, "wtime"@, "btime"@, "winc"@, "binc"@, "movestogo"@, "depth"@, "nodes"@, "mate"@, "movetime"@, "infinite"@]
}

/// Whether `shakmaty` reads none of `go_words()` as a move.
pub open spec fn go_words_are_no_moves() -> bool {
    forall|i: int| 0 <= i < go_words().len() ==> uci_move_text(#[trigger] go_words()[i]) is None
}

/// `shakmaty` reads none of `go_words()` as a move.
pub proof fn lemma_go_words_are_no_moves()
    ensures
        go_words_are_no_moves(),
{
    reveal_strlit("binc");
    reveal_strlit("btime");
    reveal_strlit("depth");
    reveal_strlit("infinite");
    reveal_strlit("mate");
    reveal_strlit("movestogo");
    reveal_strlit("movetime");
    reveal_strlit("nodes");
    reveal_strlit("ponder");
    reveal_strlit("winc");
    reveal_strlit("wtime");
    assert forall|i: int| 0 <= i < go_words().len() implies uci_move_text(#[trigger] go_words()[i]) is None by {
        let w = go_words()[i];
        lemma_move_token_shape(w);
        if i == 0 {
            assert(w == "ponder"@);
            assert(w.len() == 6);
        } else if i == 1 {
            assert(w == "wtime"@);
            assert(w[0] != '0');
            assert(!(is_file_char(w[2]) && is_rank_char(w[3])));
        } else if i == 2 {
            assert(w == "btime"@);
            assert(w[0] != '0');
            assert(!(is_file_char(w[2]) && is_rank_char(w[3])));
        } else if i == 3 {
            assert(w == "winc"@);
            assert(w[0] != '0');
            assert(!(is_file_char(w[2]) && is_rank_char(w[3])));
        } else if i == 4 {
            assert(w == "binc"@);
            assert(w[0] != '0');
            assert(!(is_file_char(w[2]) && is_rank_char(w[3])));
        } else if i == 5 {
            assert(w == "movestogo"@);
            assert(w.len() == 9);
        } else if i == 6 {
            assert(w == "depth"@);
            assert(w[0] != '0');
            assert(!(is_file_char(w[2]) && is_rank_char(w[3])));
        } else if i == 7 {
            assert(w == "nodes"@);
            assert(w[0] != '0');
            assert(!(is_file_char(w[2]) && is_rank_char(w[3])));
        } else if i == 8 {
            assert(w == "mate"@);
            assert(w[0] != '0');
            assert(!(is_file_char(w[2]) && is_rank_char(w[3])));
        } else if i == 9 {
            assert(w == "movetime"@);
            assert(w.len() == 8);
        } else if i == 10 {
            assert(w == "infinite"@);
            assert(w.len() == 8);
        }
    }
}


/// Whether the token that `s` starts with, if any, is one of `words`.
pub open spec fn first_token_among(s: Seq<char>, words: Seq<Seq<char>>) -> bool {
    match spec_read(s).0 {
        Some(w) => words.contains(w),
        None => true,
    }
}

/// The arguments of a written `go` command, each after a space.
pub open spec fn go_pieces(g: SpecGo) -> Seq<char> {
    ((match g.searchmoves { Some(ms) => " searchmoves"@ + render_moves(ms), None => seq![] }) + (render_flag(" ponder"@, g.ponder) + (render_number(" wtime "@, nat_of_u64(g.wtime)) + (render_number(" btime "@, nat_of_u64(g.btime)) + (render_number(" winc "@, nat_of_u64(g.winc)) + (render_number(" binc "@, nat_of_u64(g.binc)) + (render_number(" movestogo "@, nat_of_u32(g.movestogo)) + (render_number(" depth "@, nat_of_u32(g.depth)) + (render_number(" nodes "@, nat_of_u64(g.nodes)) + (render_number(" mate "@, nat_of_u32(g.mate)) + (render_number(" movetime "@, nat_of_u64(g.movetime)) + (render_flag(" infinite"@, g.infinite) + Seq::<char>::empty()))))))))))))
}

/// A written `searchmoves` argument of a `go` command, then what may follow it, reads back as that
/// argument.
proof fn lemma_go_piece_searchmoves(v: Option<Seq<Seq<char>>>, r: Seq<char>, acc: SpecGo)
    requires
        ends_token(r),
        acc.searchmoves is None,
        v matches Some(ms) ==> all_move_texts(ms) && no_move_follows(r),
    ensures
        ends_token((match v { Some(ms) => " searchmoves"@ + render_moves(ms), None => seq![] }) + r),
        !has_line_break(r) ==> !has_line_break((match v { Some(ms) => " searchmoves"@ + render_moves(ms), None => seq![] }) + r),
        spec_go_args((match v { Some(ms) => " searchmoves"@ + render_moves(ms), None => seq![] }) + r, acc) == spec_go_args(r, SpecGo { searchmoves: v, ..acc }),
{
    reveal_strlit(" searchmoves");
    reveal_strlit("binc");
    reveal_strlit("btime");
    reveal_strlit("depth");
    reveal_strlit("infinite");
    reveal_strlit("mate");
    reveal_strlit("movestogo");
    reveal_strlit("movetime");
    reveal_strlit("nodes");
    reveal_strlit("ponder");
    reveal_strlit("searchmoves");
    reveal_strlit("winc");
    reveal_strlit("wtime");
    match v {
        Some(ms) => {
            assert("searchmoves"@.len() != "ponder"@.len());
            assert("searchmoves"@ != "ponder"@);
            assert("searchmoves"@.len() != "infinite"@.len());
            assert("searchmoves"@ != "infinite"@);
            assert("searchmoves"@.len() != "movestogo"@.len());
            assert("searchmoves"@ != "movestogo"@);
            assert("searchmoves"@.len() != "depth"@.len());
            assert("searchmoves"@ != "depth"@);
            assert("searchmoves"@.len() != "nodes"@.len());
            assert("searchmoves"@ != "nodes"@);
            assert("searchmoves"@.len() != "mate"@.len());
            assert("searchmoves"@ != "mate"@);
            assert("searchmoves"@.len() != "movetime"@.len());
            assert("searchmoves"@ != "movetime"@);
            assert("searchmoves"@.len() != "wtime"@.len());
            assert("searchmoves"@ != "wtime"@);
            assert("searchmoves"@.len() != "btime"@.len());
            assert("searchmoves"@ != "btime"@);
            assert("searchmoves"@.len() != "winc"@.len());
            assert("searchmoves"@ != "winc"@);
            assert("searchmoves"@.len() != "binc"@.len());
            assert("searchmoves"@ != "binc"@);
            let s = " searchmoves"@ + render_moves(ms) + r;
            assert(" searchmoves"@ =~= seq![' '] + "searchmoves"@);
            lemma_render_moves_ends_token(ms, r);
            assert(s =~= seq![' '] + "searchmoves"@ + (render_moves(ms) + r));
            lemma_read_word(seq![' '], "searchmoves"@, render_moves(ms) + r);
            lemma_parse_moves_render(Seq::<char>::empty(), ms, r);
            assert(Seq::<char>::empty() + render_moves(ms) + r =~= render_moves(ms) + r);
            assert(!has_line_break(" searchmoves"@));
            lemma_render_moves_no_line_break(ms);
            lemma_line_break_concat(" searchmoves"@, render_moves(ms));
            lemma_line_break_concat(" searchmoves"@ + render_moves(ms), r);
            assert(s[0] == ' ');
        },
        None => {
            assert((match v { Some(ms) => " searchmoves"@ + render_moves(ms), None => seq![] }) + r =~= r);
        },
    }
}

/// A written `ponder` argument of a `go` command, then what may follow it, reads back as that
/// argument.
proof fn lemma_go_piece_ponder(v: bool, r: Seq<char>, acc: SpecGo)
    requires
        ends_token(r),
        acc.ponder == false,
    ensures
        ends_token(render_flag(" ponder"@, v) + r),
        !has_line_break(r) ==> !has_line_break(render_flag(" ponder"@, v) + r),
        spec_go_args(render_flag(" ponder"@, v) + r, acc) == spec_go_args(r, SpecGo { ponder: v, ..acc }),
        first_token_among(r, go_words()) ==> first_token_among(render_flag(" ponder"@, v) + r, go_words()),
{
    reveal_strlit(" ponder");
    reveal_strlit("binc");
    reveal_strlit("btime");
    reveal_strlit("depth");
    reveal_strlit("infinite");
    reveal_strlit("mate");
    reveal_strlit("movestogo");
    reveal_strlit("movetime");
    reveal_strlit("nodes");
    reveal_strlit("ponder");
    reveal_strlit("winc");
    reveal_strlit("wtime");
    if v {
            let s = " ponder"@ + r;
            assert(true);
            assert(" ponder"@ =~= seq![' '] + "ponder"@);
            assert(s =~= seq![' '] + "ponder"@ + r);
            lemma_read_word(seq![' '], "ponder"@, r);
            assert(!has_line_break(" ponder"@));
            lemma_line_break_concat(" ponder"@, r);
            assert(go_words()[0] == "ponder"@);
            assert(s[0] == ' ');
        } else {
            assert(render_flag(" ponder"@, v) + r =~= r);
            assert(acc == SpecGo { ponder: v, ..acc });
        }
}

/// A written `wtime` argument of a `go` command, then what may follow it, reads back as that
/// argument.
proof fn lemma_go_piece_wtime(v: Option<u64>, r: Seq<char>, acc: SpecGo)
    requires
        ends_token(r),
        acc.wtime is None,
    ensures
        ends_token(render_number(" wtime "@, nat_of_u64(v)) + r),
        !has_line_break(r) ==> !has_line_break(render_number(" wtime "@, nat_of_u64(v)) + r),
        spec_go_args(render_number(" wtime "@, nat_of_u64(v)) + r, acc) == spec_go_args(r, SpecGo { wtime: v, ..acc }),
        first_token_among(r, go_words()) ==> first_token_among(render_number(" wtime "@, nat_of_u64(v)) + r, go_words()),
{
    reveal_strlit(" wtime ");
    reveal_strlit("binc");
    reveal_strlit("btime");
    reveal_strlit("depth");
    reveal_strlit("infinite");
    reveal_strlit("mate");
    reveal_strlit("movestogo");
    reveal_strlit("movetime");
    reveal_strlit("nodes");
    reveal_strlit("ponder");
    reveal_strlit("winc");
    reveal_strlit("wtime");
    match v {
        Some(n) => {
            assert("wtime"@.len() != "ponder"@.len());
            assert("wtime"@ != "ponder"@);
            assert("wtime"@.len() != "infinite"@.len());
            assert("wtime"@ != "infinite"@);
            assert("wtime"@.len() != "movestogo"@.len());
            assert("wtime"@ != "movestogo"@);
            assert("wtime"@[0] != "depth"@[0]);
            assert("wtime"@ != "depth"@);
            assert("wtime"@[0] != "nodes"@[0]);
            assert("wtime"@ != "nodes"@);
            assert("wtime"@.len() != "mate"@.len());
            assert("wtime"@ != "mate"@);
            assert("wtime"@.len() != "movetime"@.len());
            assert("wtime"@ != "movetime"@);
            let d = decimal(n as nat);
            lemma_decimal_reads_back(n as nat, u64::MAX as int);
            lemma_decimal_is_word(n as nat);
            let s = " wtime "@ + d + r;
            assert(" wtime "@ =~= seq![' '] + "wtime"@ + seq![' ']);
            assert(s =~= seq![' '] + "wtime"@ + (seq![' '] + d + r));
            lemma_read_word(seq![' '], "wtime"@, seq![' '] + d + r);
            lemma_read_word(seq![' '], d, r);
            assert(!has_line_break(" wtime "@));
            lemma_decimal_no_line_break(n as nat);
            lemma_line_break_concat(" wtime "@, d);
            lemma_line_break_concat(" wtime "@ + d, r);
            assert(go_words()[1] == "wtime"@);
            assert(s[0] == ' ');
        },
        None => {
            assert(render_number(" wtime "@, nat_of_u64(v)) + r =~= r);
        },
    }
}

/// A written `btime` argument of a `go` command, then what may follow it, reads back as that
/// argument.
proof fn lemma_go_piece_btime(v: Option<u64>, r: Seq<char>, acc: SpecGo)
    requires
        ends_token(r),
        acc.btime is None,
    ensures
        ends_token(render_number(" btime "@, nat_of_u64(v)) + r),
        !has_line_break(r) ==> !has_line_break(render_number(" btime "@, nat_of_u64(v)) + r),
        spec_go_args(render_number(" btime "@, nat_of_u64(v)) + r, acc) == spec_go_args(r, SpecGo { btime: v, ..acc }),
        first_token_among(r, go_words()) ==> first_token_among(render_number(" btime "@, nat_of_u64(v)) + r, go_words()),
{
    reveal_strlit(" btime ");
    reveal_strlit("binc");
    reveal_strlit("btime");
    reveal_strlit("depth");
    reveal_strlit("infinite");
    reveal_strlit("mate");
    reveal_strlit("movestogo");
    reveal_strlit("movetime");
    reveal_strlit("nodes");
    reveal_strlit("ponder");
    reveal_strlit("winc");
    reveal_strlit("wtime");
    match v {
        Some(n) => {
            assert("btime"@.len() != "ponder"@.len());
            assert("btime"@ != "ponder"@);
            assert("btime"@.len() != "infinite"@.len());
            assert("btime"@ != "infinite"@);
            assert("btime"@.len() != "movestogo"@.len());
            assert("btime"@ != "movestogo"@);
            assert("btime"@[0] != "depth"@[0]);
            assert("btime"@ != "depth"@);
            assert("btime"@[0] != "nodes"@[0]);
            assert("btime"@ != "nodes"@);
            assert("btime"@.len() != "mate"@.len());
            assert("btime"@ != "mate"@);
            assert("btime"@.len() != "movetime"@.len());
            assert("btime"@ != "movetime"@);
            assert("btime"@[0] != "wtime"@[0]);
            assert("btime"@ != "wtime"@);
            let d = decimal(n as nat);
            lemma_decimal_reads_back(n as nat, u64::MAX as int);
            lemma_decimal_is_word(n as nat);
            let s = " btime "@ + d + r;
            assert(" btime "@ =~= seq![' '] + "btime"@ + seq![' ']);
            assert(s =~= seq![' '] + "btime"@ + (seq![' '] + d + r));
            lemma_read_word(seq![' '], "btime"@, seq![' '] + d + r);
            lemma_read_word(seq![' '], d, r);
            assert(!has_line_break(" btime "@));
            lemma_decimal_no_line_break(n as nat);
            lemma_line_break_concat(" btime "@, d);
            lemma_line_break_concat(" btime "@ + d, r);
            assert(go_words()[2] == "btime"@);
            assert(s[0] == ' ');
        },
        None => {
            assert(render_number(" btime "@, nat_of_u64(v)) + r =~= r);
        },
    }
}

/// A written `winc` argument of a `go` command, then what may follow it, reads back as that
/// argument.
proof fn lemma_go_piece_winc(v: Option<u64>, r: Seq<char>, acc: SpecGo)
    requires
        ends_token(r),
        acc.winc is None,
    ensures
        ends_token(render_number(" winc "@, nat_of_u64(v)) + r),
        !has_line_break(r) ==> !has_line_break(render_number(" winc "@, nat_of_u64(v)) + r),
        spec_go_args(render_number(" winc "@, nat_of_u64(v)) + r, acc) == spec_go_args(r, SpecGo { winc: v, ..acc }),
        first_token_among(r, go_words()) ==> first_token_among(render_number(" winc "@, nat_of_u64(v)) + r, go_words()),
{
    reveal_strlit(" winc ");
    reveal_strlit("binc");
    reveal_strlit("btime");
    reveal_strlit("depth");
    reveal_strlit("infinite");
    reveal_strlit("mate");
    reveal_strlit("movestogo");
    reveal_strlit("movetime");
    reveal_strlit("nodes");
    reveal_strlit("ponder");
    reveal_strlit("winc");
    reveal_strlit("wtime");
    match v {
        Some(n) => {
            assert("winc"@.len() != "ponder"@.len());
            assert("winc"@ != "ponder"@);
            assert("winc"@.len() != "infinite"@.len());
            assert("winc"@ != "infinite"@);
            assert("winc"@.len() != "movestogo"@.len());
            assert("winc"@ != "movestogo"@);
            assert("winc"@.len() != "depth"@.len());
            assert("winc"@ != "depth"@);
            assert("winc"@.len() != "nodes"@.len());
            assert("winc"@ != "nodes"@);
            assert("winc"@[0] != "mate"@[0]);
            assert("winc"@ != "mate"@);
            assert("winc"@.len() != "movetime"@.len());
            assert("winc"@ != "movetime"@);
            assert("winc"@.len() != "wtime"@.len());
            assert("winc"@ != "wtime"@);
            assert("winc"@.len() != "btime"@.len());
            assert("winc"@ != "btime"@);
            let d = decimal(n as nat);
            lemma_decimal_reads_back(n as nat, u64::MAX as int);
            lemma_decimal_is_word(n as nat);
            let s = " winc "@ + d + r;
            assert(" winc "@ =~= seq![' '] + "winc"@ + seq![' ']);
            assert(s =~= seq![' '] + "winc"@ + (seq![' '] + d + r));
            lemma_read_word(seq![' '], "winc"@, seq![' '] + d + r);
            lemma_read_word(seq![' '], d, r);
            assert(!has_line_break(" winc "@));
            lemma_decimal_no_line_break(n as nat);
            lemma_line_break_concat(" winc "@, d);
            lemma_line_break_concat(" winc "@ + d, r);
            assert(go_words()[3] == "winc"@);
            assert(s[0] == ' ');
        },
        None => {
            assert(render_number(" winc "@, nat_of_u64(v)) + r =~= r);
        },
    }
}

/// A written `binc` argument of a `go` command, then what may follow it, reads back as that
/// argument.
proof fn lemma_go_piece_binc(v: Option<u64>, r: Seq<char>, acc: SpecGo)
    requires
        ends_token(r),
        acc.binc is None,
    ensures
        ends_token(render_number(" binc "@, nat_of_u64(v)) + r),
        !has_line_break(r) ==> !has_line_break(render_number(" binc "@, nat_of_u64(v)) + r),
        spec_go_args(render_number(" binc "@, nat_of_u64(v)) + r, acc) == spec_go_args(r, SpecGo { binc: v, ..acc }),
        first_token_among(r, go_words()) ==> first_token_among(render_number(" binc "@, nat_of_u64(v)) + r, go_words()),
{
    reveal_strlit(" binc ");
    reveal_strlit("binc");
    reveal_strlit("btime");
    reveal_strlit("depth");
    reveal_strlit("infinite");
    reveal_strlit("mate");
    reveal_strlit("movestogo");
    reveal_strlit("movetime");
    reveal_strlit("nodes");
    reveal_strlit("ponder");
    reveal_strlit("winc");
    reveal_strlit("wtime");
    match v {
        Some(n) => {
            assert("binc"@.len() != "ponder"@.len());
            assert("binc"@ != "ponder"@);
            assert("binc"@.len() != "infinite"@.len());
            assert("binc"@ != "infinite"@);
            assert("binc"@.len() != "movestogo"@.len());
            assert("binc"@ != "movestogo"@);
            assert("binc"@.len() != "depth"@.len());
            assert("binc"@ != "depth"@);
            assert("binc"@.len() != "nodes"@.len());
            assert("binc"@ != "nodes"@);
            assert("binc"@[0] != "mate"@[0]);
            assert("binc"@ != "mate"@);
            assert("binc"@.len() != "movetime"@.len());
            assert("binc"@ != "movetime"@);
            assert("binc"@.len() != "wtime"@.len());
            assert("binc"@ != "wtime"@);
            assert("binc"@.len() != "btime"@.len());
            assert("binc"@ != "btime"@);
            assert("binc"@[0] != "winc"@[0]);
            assert("binc"@ != "winc"@);
            let d = decimal(n as nat);
            lemma_decimal_reads_back(n as nat, u64::MAX as int);
            lemma_decimal_is_word(n as nat);
            let s = " binc "@ + d + r;
            assert(" binc "@ =~= seq![' '] + "binc"@ + seq![' ']);
            assert(s =~= seq![' '] + "binc"@ + (seq![' '] + d + r));
            lemma_read_word(seq![' '], "binc"@, seq![' '] + d + r);
            lemma_read_word(seq![' '], d, r);
            assert(!has_line_break(" binc "@));
            lemma_decimal_no_line_break(n as nat);
            lemma_line_break_concat(" binc "@, d);
            lemma_line_break_concat(" binc "@ + d, r);
            assert(go_words()[4] == "binc"@);
            assert(s[0] == ' ');
        },
        None => {
            assert(render_number(" binc "@, nat_of_u64(v)) + r =~= r);
        },
    }
}

/// A written `movestogo` argument of a `go` command, then what may follow it, reads back as that
/// argument.
proof fn lemma_go_piece_movestogo(v: Option<u32>, r: Seq<char>, acc: SpecGo)
    requires
        ends_token(r),
        acc.movestogo is None,
    ensures
        ends_token(render_number(" movestogo "@, nat_of_u32(v)) + r),
        !has_line_break(r) ==> !has_line_break(render_number(" movestogo "@, nat_of_u32(v)) + r),
        spec_go_args(render_number(" movestogo "@, nat_of_u32(v)) + r, acc) == spec_go_args(r, SpecGo { movestogo: v, ..acc }),
        first_token_among(r, go_words()) ==> first_token_among(render_number(" movestogo "@, nat_of_u32(v)) + r, go_words()),
{
    reveal_strlit(" movestogo ");
    reveal_strlit("binc");
    reveal_strlit("btime");
    reveal_strlit("depth");
    reveal_strlit("infinite");
    reveal_strlit("mate");
    reveal_strlit("movestogo");
    reveal_strlit("movetime");
    reveal_strlit("nodes");
    reveal_strlit("ponder");
    reveal_strlit("winc");
    reveal_strlit("wtime");
    match v {
        Some(n) => {
            assert("movestogo"@.len() != "ponder"@.len());
            assert("movestogo"@ != "ponder"@);
            assert("movestogo"@.len() != "infinite"@.len());
            assert("movestogo"@ != "infinite"@);
            let d = decimal(n as nat);
            lemma_decimal_reads_back(n as nat, u32::MAX as int);
            lemma_decimal_is_word(n as nat);
            let s = " movestogo "@ + d + r;
            assert(" movestogo "@ =~= seq![' '] + "movestogo"@ + seq![' ']);
            assert(s =~= seq![' '] + "movestogo"@ + (seq![' '] + d + r));
            lemma_read_word(seq![' '], "movestogo"@, seq![' '] + d + r);
            lemma_read_word(seq![' '], d, r);
            assert(!has_line_break(" movestogo "@));
            lemma_decimal_no_line_break(n as nat);
            lemma_line_break_concat(" movestogo "@, d);
            lemma_line_break_concat(" movestogo "@ + d, r);
            assert(go_words()[5] == "movestogo"@);
            assert(s[0] == ' ');
        },
        None => {
            assert(render_number(" movestogo "@, nat_of_u32(v)) + r =~= r);
        },
    }
}

/// A written `depth` argument of a `go` command, then what may follow it, reads back as that
/// argument.
proof fn lemma_go_piece_depth(v: Option<u32>, r: Seq<char>, acc: SpecGo)
    requires
        ends_token(r),
        acc.depth is None,
    ensures
        ends_token(render_number(" depth "@, nat_of_u32(v)) + r),
        !has_line_break(r) ==> !has_line_break(render_number(" depth "@, nat_of_u32(v)) + r),
        spec_go_args(render_number(" depth "@, nat_of_u32(v)) + r, acc) == spec_go_args(r, SpecGo { depth: v, ..acc }),
        first_token_among(r, go_words()) ==> first_token_among(render_number(" depth "@, nat_of_u32(v)) + r, go_words()),
{
    reveal_strlit(" depth ");
    reveal_strlit("binc");
    reveal_strlit("btime");
    reveal_strlit("depth");
    reveal_strlit("infinite");
    reveal_strlit("mate");
    reveal_strlit("movestogo");
    reveal_strlit("movetime");
    reveal_strlit("nodes");
    reveal_strlit("ponder");
    reveal_strlit("winc");
    reveal_strlit("wtime");
    match v {
        Some(n) => {
            assert("depth"@.len() != "ponder"@.len());
            assert("depth"@ != "ponder"@);
            assert("depth"@.len() != "infinite"@.len());
            assert("depth"@ != "infinite"@);
            assert("depth"@.len() != "movestogo"@.len());
            assert("depth"@ != "movestogo"@);
            let d = decimal(n as nat);
            lemma_decimal_reads_back(n as nat, u32::MAX as int);
            lemma_decimal_is_word(n as nat);
            let s = " depth "@ + d + r;
            assert(" depth "@ =~= seq![' '] + "depth"@ + seq![' ']);
            assert(s =~= seq![' '] + "depth"@ + (seq![' '] + d + r));
            lemma_read_word(seq![' '], "depth"@, seq![' '] + d + r);
            lemma_read_word(seq![' '], d, r);
            assert(!has_line_break(" depth "@));
            lemma_decimal_no_line_break(n as nat);
            lemma_line_break_concat(" depth "@, d);
            lemma_line_break_concat(" depth "@ + d, r);
            assert(go_words()[6] == "depth"@);
            assert(s[0] == ' ');
        },
        None => {
            assert(render_number(" depth "@, nat_of_u32(v)) + r =~= r);
        },
    }
}

/// A written `nodes` argument of a `go` command, then what may follow it, reads back as that
/// argument.
proof fn lemma_go_piece_nodes(v: Option<u64>, r: Seq<char>, acc: SpecGo)
    requires
        ends_token(r),
        acc.nodes is None,
    ensures
        ends_token(render_number(" nodes "@, nat_of_u64(v)) + r),
        !has_line_break(r) ==> !has_line_break(render_number(" nodes "@, nat_of_u64(v)) + r),
        spec_go_args(render_number(" nodes "@, nat_of_u64(v)) + r, acc) == spec_go_args(r, SpecGo { nodes: v, ..acc }),
        first_token_among(r, go_words()) ==> first_token_among(render_number(" nodes "@, nat_of_u64(v)) + r, go_words()),
{
    reveal_strlit(" nodes ");
    reveal_strlit("binc");
    reveal_strlit("btime");
    reveal_strlit("depth");
    reveal_strlit("infinite");
    reveal_strlit("mate");
    reveal_strlit("movestogo");
    reveal_strlit("movetime");
    reveal_strlit("nodes");
    reveal_strlit("ponder");
    reveal_strlit("winc");
    reveal_strlit("wtime");
    match v {
        Some(n) => {
            assert("nodes"@.len() != "ponder"@.len());
            assert("nodes"@ != "ponder"@);
            assert("nodes"@.len() != "infinite"@.len());
            assert("nodes"@ != "infinite"@);
            assert("nodes"@.len() != "movestogo"@.len());
            assert("nodes"@ != "movestogo"@);
            assert("nodes"@[0] != "depth"@[0]);
            assert("nodes"@ != "depth"@);
            let d = decimal(n as nat);
            lemma_decimal_reads_back(n as nat, u64::MAX as int);
            lemma_decimal_is_word(n as nat);
            let s = " nodes "@ + d + r;
            assert(" nodes "@ =~= seq![' '] + "nodes"@ + seq![' ']);
            assert(s =~= seq![' '] + "nodes"@ + (seq![' '] + d + r));
            lemma_read_word(seq![' '], "nodes"@, seq![' '] + d + r);
            lemma_read_word(seq![' '], d, r);
            assert(!has_line_break(" nodes "@));
            lemma_decimal_no_line_break(n as nat);
            lemma_line_break_concat(" nodes "@, d);
            lemma_line_break_concat(" nodes "@ + d, r);
            assert(go_words()[7] == "nodes"@);
            assert(s[0] == ' ');
        },
        None => {
            assert(render_number(" nodes "@, nat_of_u64(v)) + r =~= r);
        },
    }
}

/// A written `mate` argument of a `go` command, then what may follow it, reads back as that
/// argument.
proof fn lemma_go_piece_mate(v: Option<u32>, r: Seq<char>, acc: SpecGo)
    requires
        ends_token(r),
        acc.mate is None,
    ensures
        ends_token(render_number(" mate "@, nat_of_u32(v)) + r),
        !has_line_break(r) ==> !has_line_break(render_number(" mate "@, nat_of_u32(v)) + r),
        spec_go_args(render_number(" mate "@, nat_of_u32(v)) + r, acc) == spec_go_args(r, SpecGo { mate: v, ..acc }),
        first_token_among(r, go_words()) ==> first_token_among(render_number(" mate "@, nat_of_u32(v)) + r, go_words()),
{
    reveal_strlit(" mate ");
    reveal_strlit("binc");
    reveal_strlit("btime");
    reveal_strlit("depth");
    reveal_strlit("infinite");
    reveal_strlit("mate");
    reveal_strlit("movestogo");
    reveal_strlit("movetime");
    reveal_strlit("nodes");
    reveal_strlit("ponder");
    reveal_strlit("winc");
    reveal_strlit("wtime");
    match v {
        Some(n) => {
            assert("mate"@.len() != "ponder"@.len());
            assert("mate"@ != "ponder"@);
            assert("mate"@.len() != "infinite"@.len());
            assert("mate"@ != "infinite"@);
            assert("mate"@.len() != "movestogo"@.len());
            assert("mate"@ != "movestogo"@);
            assert("mate"@.len() != "depth"@.len());
            assert("mate"@ != "depth"@);
            assert("mate"@.len() != "nodes"@.len());
            assert("mate"@ != "nodes"@);
            let d = decimal(n as nat);
            lemma_decimal_reads_back(n as nat, u32::MAX as int);
            lemma_decimal_is_word(n as nat);
            let s = " mate "@ + d + r;
            assert(" mate "@ =~= seq![' '] + "mate"@ + seq![' ']);
            assert(s =~= seq![' '] + "mate"@ + (seq![' '] + d + r));
            lemma_read_word(seq![' '], "mate"@, seq![' '] + d + r);
            lemma_read_word(seq![' '], d, r);
            assert(!has_line_break(" mate "@));
            lemma_decimal_no_line_break(n as nat);
            lemma_line_break_concat(" mate "@, d);
            lemma_line_break_concat(" mate "@ + d, r);
            assert(go_words()[8] == "mate"@);
            assert(s[0] == ' ');
        },
        None => {
            assert(render_number(" mate "@, nat_of_u32(v)) + r =~= r);
        },
    }
}

/// A written `movetime` argument of a `go` command, then what may follow it, reads back as that
/// argument.
proof fn lemma_go_piece_movetime(v: Option<u64>, r: Seq<char>, acc: SpecGo)
    requires
        ends_token(r),
        acc.movetime is None,
    ensures
        ends_token(render_number(" movetime "@, nat_of_u64(v)) + r),
        !has_line_break(r) ==> !has_line_break(render_number(" movetime "@, nat_of_u64(v)) + r),
        spec_go_args(render_number(" movetime "@, nat_of_u64(v)) + r, acc) == spec_go_args(r, SpecGo { movetime: v, ..acc }),
        first_token_among(r, go_words()) ==> first_token_among(render_number(" movetime "@, nat_of_u64(v)) + r, go_words()),
{
    reveal_strlit(" movetime ");
    reveal_strlit("binc");
    reveal_strlit("btime");
    reveal_strlit("depth");
    reveal_strlit("infinite");
    reveal_strlit("mate");
    reveal_strlit("movestogo");
    reveal_strlit("movetime");
    reveal_strlit("nodes");
    reveal_strlit("ponder");
    reveal_strlit("winc");
    reveal_strlit("wtime");
    match v {
        Some(n) => {
            assert("movetime"@.len() != "ponder"@.len());
            assert("movetime"@ != "ponder"@);
            assert("movetime"@[0] != "infinite"@[0]);
            assert("movetime"@ != "infinite"@);
            assert("movetime"@.len() != "movestogo"@.len());
            assert("movetime"@ != "movestogo"@);
            assert("movetime"@.len() != "depth"@.len());
            assert("movetime"@ != "depth"@);
            assert("movetime"@.len() != "nodes"@.len());
            assert("movetime"@ != "nodes"@);
            assert("movetime"@.len() != "mate"@.len());
            assert("movetime"@ != "mate"@);
            let d = decimal(n as nat);
            lemma_decimal_reads_back(n as nat, u64::MAX as int);
            lemma_decimal_is_word(n as nat);
            let s = " movetime "@ + d + r;
            assert(" movetime "@ =~= seq![' '] + "movetime"@ + seq![' ']);
            assert(s =~= seq![' '] + "movetime"@ + (seq![' '] + d + r));
            lemma_read_word(seq![' '], "movetime"@, seq![' '] + d + r);
            lemma_read_word(seq![' '], d, r);
            assert(!has_line_break(" movetime "@));
            lemma_decimal_no_line_break(n as nat);
            lemma_line_break_concat(" movetime "@, d);
            lemma_line_break_concat(" movetime "@ + d, r);
            assert(go_words()[9] == "movetime"@);
            assert(s[0] == ' ');
        },
        None => {
            assert(render_number(" movetime "@, nat_of_u64(v)) + r =~= r);
        },
    }
}

/// A written `infinite` argument of a `go` command, then what may follow it, reads back as that
/// argument.
proof fn lemma_go_piece_infinite(v: bool, r: Seq<char>, acc: SpecGo)
    requires
        ends_token(r),
        acc.infinite == false,
    ensures
        ends_token(render_flag(" infinite"@, v) + r),
        !has_line_break(r) ==> !has_line_break(render_flag(" infinite"@, v) + r),
        spec_go_args(render_flag(" infinite"@, v) + r, acc) == spec_go_args(r, SpecGo { infinite: v, ..acc }),
        first_token_among(r, go_words()) ==> first_token_among(render_flag(" infinite"@, v) + r, go_words()),
{
    reveal_strlit(" infinite");
    reveal_strlit("binc");
    reveal_strlit("btime");
    reveal_strlit("depth");
    reveal_strlit("infinite");
    reveal_strlit("mate");
    reveal_strlit("movestogo");
    reveal_strlit("movetime");
    reveal_strlit("nodes");
    reveal_strlit("ponder");
    reveal_strlit("winc");
    reveal_strlit("wtime");
    if v {
            assert("infinite"@.len() != "ponder"@.len());
            assert("infinite"@ != "ponder"@);
            let s = " infinite"@ + r;
            assert(true);
            assert(" infinite"@ =~= seq![' '] + "infinite"@);
            assert(s =~= seq![' '] + "infinite"@ + r);
            lemma_read_word(seq![' '], "infinite"@, r);
            assert(!has_line_break(" infinite"@));
            lemma_line_break_concat(" infinite"@, r);
            assert(go_words()[10] == "infinite"@);
            assert(s[0] == ' ');
        } else {
            assert(render_flag(" infinite"@, v) + r =~= r);
            assert(acc == SpecGo { infinite: v, ..acc });
        }
}

/// The arguments of a written `go` command read back as that command.
proof fn lemma_go_pieces_read_back(g: SpecGo)
    requires
        g.searchmoves matches Some(ms) ==> all_move_texts(ms),
    ensures
        ends_token(go_pieces(g)),
        !has_line_break(go_pieces(g)),
        spec_go_args(go_pieces(g), go_start()) == (Ok::<SpecGo, ErrorKind>(g), Seq::<char>::empty()),
{
    lemma_go_words_are_no_moves();
    let acc0 = go_start();
    let acc1 = SpecGo { searchmoves: g.searchmoves, ..acc0 };
    let acc2 = SpecGo { ponder: g.ponder, ..acc1 };
    let acc3 = SpecGo { wtime: g.wtime, ..acc2 };
    let acc4 = SpecGo { btime: g.btime, ..acc3 };
    let acc5 = SpecGo { winc: g.winc, ..acc4 };
    let acc6 = SpecGo { binc: g.binc, ..acc5 };
    let acc7 = SpecGo { movestogo: g.movestogo, ..acc6 };
    let acc8 = SpecGo { depth: g.depth, ..acc7 };
    let acc9 = SpecGo { nodes: g.nodes, ..acc8 };
    let acc10 = SpecGo { mate: g.mate, ..acc9 };
    let acc11 = SpecGo { movetime: g.movetime, ..acc10 };
    let acc12 = SpecGo { infinite: g.infinite, ..acc11 };
    let r12 = Seq::<char>::empty();
    let r11 = render_flag(" infinite"@, g.infinite) + r12;
    let r10 = render_number(" movetime "@, nat_of_u64(g.movetime)) + r11;
    let r9 = render_number(" mate "@, nat_of_u32(g.mate)) + r10;
    let r8 = render_number(" nodes "@, nat_of_u64(g.nodes)) + r9;
    let r7 = render_number(" depth "@, nat_of_u32(g.depth)) + r8;
    let r6 = render_number(" movestogo "@, nat_of_u32(g.movestogo)) + r7;
    let r5 = render_number(" binc "@, nat_of_u64(g.binc)) + r6;
    let r4 = render_number(" winc "@, nat_of_u64(g.winc)) + r5;
    let r3 = render_number(" btime "@, nat_of_u64(g.btime)) + r4;
    let r2 = render_number(" wtime "@, nat_of_u64(g.wtime)) + r3;
    let r1 = render_flag(" ponder"@, g.ponder) + r2;
    let r0 = (match g.searchmoves { Some(ms) => " searchmoves"@ + render_moves(ms), None => seq![] }) + r1;
    assert(go_pieces(g) == r0);
    lemma_go_piece_infinite(g.infinite, r12, acc11);
    lemma_go_piece_movetime(g.movetime, r11, acc10);
    lemma_go_piece_mate(g.mate, r10, acc9);
    lemma_go_piece_nodes(g.nodes, r9, acc8);
    lemma_go_piece_depth(g.depth, r8, acc7);
    lemma_go_piece_movestogo(g.movestogo, r7, acc6);
    lemma_go_piece_binc(g.binc, r6, acc5);
    lemma_go_piece_winc(g.winc, r5, acc4);
    lemma_go_piece_btime(g.btime, r4, acc3);
    lemma_go_piece_wtime(g.wtime, r3, acc2);
    lemma_go_piece_ponder(g.ponder, r2, acc1);
    if let Some(ms) = g.searchmoves {
        if let Some(w) = spec_read(r1).0 {
            assert(go_words().contains(w));
            let j = choose|j: int| 0 <= j < go_words().len() && go_words()[j] == w;
            assert(uci_move_text(go_words()[j]) is None);
        }
    }
    lemma_go_piece_searchmoves(g.searchmoves, r1, acc0);
    crate::text_lemmas::lemma_read_blank(r12);
    assert(!has_line_break(r12));
    assert(acc12 == g);
}


/// Whether the command `v` reads back from the line that `to_uci_string` writes for it.
/// A `setoption` name must be a phrase that no `value` token interrupts, and a value
/// must start with a word character; a `position` must start from `startpos` (a line
/// `position fen ...` reads the word `fen` as part of the position, which no position
/// starts with); moves must be moves as `shakmaty` writes them. No text may hold a line
/// break.
pub open spec fn command_reads_back(v: SpecUciIn) -> bool {
    match v {
        SpecUciIn::Setoption { name, value } => {
            &&& is_phrase(name, seq!["value"@])
            &&& !has_line_break(name)
            &&& match value {
                Some(x) => x.len() > 0 && !is_separator_char(x[0]) && !has_line_break(x),
                None => true,
            }
        },
        SpecUciIn::Position { fen, moves } => fen is None && all_move_texts(moves),
        SpecUciIn::Go(g) => g.searchmoves matches Some(ms) ==> all_move_texts(ms),
        _ => true,
    }
}

/// A written `uci` command reads back as itself.
proof fn lemma_uci_reads_back()
    ensures
        spec_uci_in_from_line(render_in(SpecUciIn::Uci)) == Ok::<Option<SpecUciIn>, ErrorKind>(Some(SpecUciIn::Uci)),
{
    let v = SpecUciIn::Uci;
    reveal_strlit("uci");
    assert("uci"@ =~= Seq::<char>::empty() + "uci"@ + Seq::<char>::empty());
    lemma_read_word(Seq::<char>::empty(), "uci"@, Seq::<char>::empty());
    lemma_read_blank(Seq::<char>::empty());
    assert(!has_line_break("uci"@));
}

/// A written `isready` command reads back as itself.
proof fn lemma_isready_reads_back()
    ensures
        spec_uci_in_from_line(render_in(SpecUciIn::Isready)) == Ok::<Option<SpecUciIn>, ErrorKind>(Some(SpecUciIn::Isready)),
{
    let v = SpecUciIn::Isready;
    reveal_strlit("isready");
    reveal_strlit("uci");
    assert("isready"@.len() != "uci"@.len());
    assert("isready"@ != "uci"@);
    assert("isready"@ =~= Seq::<char>::empty() + "isready"@ + Seq::<char>::empty());
    lemma_read_word(Seq::<char>::empty(), "isready"@, Seq::<char>::empty());
    lemma_read_blank(Seq::<char>::empty());
    assert(!has_line_break("isready"@));
}

/// A written `ucinewgame` command reads back as itself.
proof fn lemma_ucinewgame_reads_back()
    ensures
        spec_uci_in_from_line(render_in(SpecUciIn::Ucinewgame)) == Ok::<Option<SpecUciIn>, ErrorKind>(Some(SpecUciIn::Ucinewgame)),
{
    let v = SpecUciIn::Ucinewgame;
    reveal_strlit("isready");
    reveal_strlit("uci");
    reveal_strlit("ucinewgame");
    assert("ucinewgame"@.len() != "uci"@.len());
    assert("ucinewgame"@ != "uci"@);
    assert("ucinewgame"@.len() != "isready"@.len());
    assert("ucinewgame"@ != "isready"@);
    assert("ucinewgame"@ =~= Seq::<char>::empty() + "ucinewgame"@ + Seq::<char>::empty());
    lemma_read_word(Seq::<char>::empty(), "ucinewgame"@, Seq::<char>::empty());
    lemma_read_blank(Seq::<char>::empty());
    assert(!has_line_break("ucinewgame"@));
}

/// A written `stop` command reads back as itself.
proof fn lemma_stop_reads_back()
    ensures
        spec_uci_in_from_line(render_in(SpecUciIn::Stop)) == Ok::<Option<SpecUciIn>, ErrorKind>(Some(SpecUciIn::Stop)),
{
    let v = SpecUciIn::Stop;
    reveal_strlit("isready");
    reveal_strlit("stop");
    reveal_strlit("uci");
    reveal_strlit("ucinewgame");
    assert("stop"@.len() != "uci"@.len());
    assert("stop"@ != "uci"@);
    assert("stop"@.len() != "isready"@.len());
    assert("stop"@ != "isready"@);
    assert("stop"@.len() != "ucinewgame"@.len());
    assert("stop"@ != "ucinewgame"@);
    assert("stop"@ =~= Seq::<char>::empty() + "stop"@ + Seq::<char>::empty());
    lemma_read_word(Seq::<char>::empty(), "stop"@, Seq::<char>::empty());
    lemma_read_blank(Seq::<char>::empty());
    assert(!has_line_break("stop"@));
}

/// A written `ponderhit` command reads back as itself.
proof fn lemma_ponderhit_reads_back()
    ensures
        spec_uci_in_from_line(render_in(SpecUciIn::Ponderhit)) == Ok::<Option<SpecUciIn>, ErrorKind>(Some(SpecUciIn::Ponderhit)),
{
    let v = SpecUciIn::Ponderhit;
    reveal_strlit("isready");
    reveal_strlit("ponderhit");
    reveal_strlit("stop");
    reveal_strlit("uci");
    reveal_strlit("ucinewgame");
    assert("ponderhit"@.len() != "uci"@.len());
    assert("ponderhit"@ != "uci"@);
    assert("ponderhit"@.len() != "isready"@.len());
    assert("ponderhit"@ != "isready"@);
    assert("ponderhit"@.len() != "ucinewgame"@.len());
    assert("ponderhit"@ != "ucinewgame"@);
    assert("ponderhit"@.len() != "stop"@.len());
    assert("ponderhit"@ != "stop"@);
    assert("ponderhit"@ =~= Seq::<char>::empty() + "ponderhit"@ + Seq::<char>::empty());
    lemma_read_word(Seq::<char>::empty(), "ponderhit"@, Seq::<char>::empty());
    lemma_read_blank(Seq::<char>::empty());
    assert(!has_line_break("ponderhit"@));
}

/// A written `setoption` command reads back as itself.
proof fn lemma_setoption_reads_back(name: Seq<char>, value: Option<Seq<char>>)
    requires
        command_reads_back(SpecUciIn::Setoption { name, value }),
    ensures
        spec_uci_in_from_line(render_in(SpecUciIn::Setoption { name, value })) == Ok::<Option<SpecUciIn>, ErrorKind>(Some(SpecUciIn::Setoption { name, value })),
{
    let v = SpecUciIn::Setoption { name, value };
    reveal_strlit(" name ");
    reveal_strlit(" value ");
    reveal_strlit("isready");
    reveal_strlit("name");
    reveal_strlit("ponderhit");
    reveal_strlit("setoption");
    reveal_strlit("setoption name ");
    reveal_strlit("stop");
    reveal_strlit("uci");
    reveal_strlit("ucinewgame");
    reveal_strlit("value");
    assert("setoption"@.len() != "uci"@.len());
    assert("setoption"@ != "uci"@);
    assert("setoption"@.len() != "isready"@.len());
    assert("setoption"@ != "isready"@);
    assert("setoption"@.len() != "ucinewgame"@.len());
    assert("setoption"@ != "ucinewgame"@);
    assert("setoption"@.len() != "stop"@.len());
    assert("setoption"@ != "stop"@);
    assert("setoption"@[0] != "ponderhit"@[0]);
    assert("setoption"@ != "ponderhit"@);
    let vt = render_text(" value "@, value);
    let line = render_in(v);
    assert(line =~= "setoption"@ + (seq![' '] + "name"@ + (seq![' '] + name + vt)));
    assert(!has_line_break("setoption name "@));
    let stops = seq!["value"@];
    match value {
        Some(x) => {
            assert(vt =~= seq![' '] + "value"@ + (seq![' '] + x));
            lemma_read_word(seq![' '], "value"@, seq![' '] + x);
            assert(vt.skip(0) =~= vt);
            assert(stops[0] == "value"@);
            assert(stop_follows(vt, 0, stops));
            lemma_read_rest_of_line(seq![' '], x);
            assert(!has_line_break(" value "@));
            lemma_line_break_concat(" value "@, x);
        },
        None => {
            assert(vt =~= Seq::<char>::empty());
            lemma_read_blank(vt);
        },
    }
    assert(ends_token(seq![' '] + name + vt));
    lemma_read_word(seq![' '], "name"@, seq![' '] + name + vt);
    lemma_read_until_phrase(seq![' '], name, vt, stops);
    lemma_read_word(Seq::<char>::empty(), "setoption"@, seq![' '] + "name"@ + (seq![' '] + name + vt));
    assert(Seq::<char>::empty() + "setoption"@ + (seq![' '] + "name"@ + (seq![' '] + name + vt)) =~= line);
    lemma_line_break_concat("setoption name "@, name);
    lemma_line_break_concat("setoption name "@ + name, vt);
}

/// A written `position startpos` command reads back as itself.
proof fn lemma_position_reads_back(moves: Seq<Seq<char>>)
    requires
        all_move_texts(moves),
    ensures
        spec_uci_in_from_line(render_in(SpecUciIn::Position { fen: None, moves })) == Ok::<Option<SpecUciIn>, ErrorKind>(Some(SpecUciIn::Position { fen: None, moves })),
{
    let v = SpecUciIn::Position { fen: None, moves };
    reveal_strlit(" moves ");
    reveal_strlit("isready");
    reveal_strlit("moves");
    reveal_strlit("ponderhit");
    reveal_strlit("position");
    reveal_strlit("position startpos");
    reveal_strlit("setoption");
    reveal_strlit("startpos");
    reveal_strlit("stop");
    reveal_strlit("uci");
    reveal_strlit("ucinewgame");
    assert("position"@.len() != "uci"@.len());
    assert("position"@ != "uci"@);
    assert("position"@.len() != "isready"@.len());
    assert("position"@ != "isready"@);
    assert("position"@.len() != "ucinewgame"@.len());
    assert("position"@ != "ucinewgame"@);
    assert("position"@.len() != "stop"@.len());
    assert("position"@ != "stop"@);
    assert("position"@.len() != "ponderhit"@.len());
    assert("position"@ != "ponderhit"@);
    assert("position"@.len() != "setoption"@.len());
    assert("position"@ != "setoption"@);
    let mt = if moves.len() > 0 {
        " moves "@ + render_moves(moves)
    } else {
        seq![]
    };
    let line = render_in(v);
    assert(line =~= "position"@ + (seq![' '] + "startpos"@ + mt));
    let stops = seq!["moves"@];
    assert(is_phrase("startpos"@, stops));
    if moves.len() > 0 {
        assert(mt =~= seq![' '] + "moves"@ + (seq![' '] + render_moves(moves)));
        lemma_read_word(seq![' '], "moves"@, seq![' '] + render_moves(moves));
        assert(mt.skip(0) =~= mt);
        assert(stops[0] == "moves"@);
        assert(stop_follows(mt, 0, stops));
        lemma_parse_all_moves_render(seq![' '], moves);
        assert(!has_line_break(" moves "@));
        lemma_render_moves_no_line_break(moves);
        lemma_line_break_concat(" moves "@, render_moves(moves));
    } else {
        assert(mt =~= Seq::<char>::empty());
        lemma_read_blank(mt);
        assert(moves =~= Seq::<Seq<char>>::empty());
    }
    lemma_read_until_phrase(seq![' '], "startpos"@, mt, stops);
    lemma_read_word(Seq::<char>::empty(), "position"@, seq![' '] + "startpos"@ + mt);
    assert(Seq::<char>::empty() + "position"@ + (seq![' '] + "startpos"@ + mt) =~= line);
    assert(!has_line_break("position startpos"@));
    lemma_line_break_concat("position startpos"@, mt);
}

/// A written `go` command is the word `go` and then its arguments.
pub proof fn lemma_render_go_split(g: SpecGo)
    ensures
        render_in(SpecUciIn::Go(g)) == "go"@ + go_pieces(g),
{
    let l0 = "go"@;
    let p1 = (match g.searchmoves { Some(ms) => " searchmoves"@ + render_moves(ms), None => seq![] });
    let p2 = render_flag(" ponder"@, g.ponder);
    let p3 = render_number(" wtime "@, nat_of_u64(g.wtime));
    let p4 = render_number(" btime "@, nat_of_u64(g.btime));
    let p5 = render_number(" winc "@, nat_of_u64(g.winc));
    let p6 = render_number(" binc "@, nat_of_u64(g.binc));
    let p7 = render_number(" movestogo "@, nat_of_u32(g.movestogo));
    let p8 = render_number(" depth "@, nat_of_u32(g.depth));
    let p9 = render_number(" nodes "@, nat_of_u64(g.nodes));
    let p10 = render_number(" mate "@, nat_of_u32(g.mate));
    let p11 = render_number(" movetime "@, nat_of_u64(g.movetime));
    let p12 = render_flag(" infinite"@, g.infinite);
    let l1 = l0 + p1;
    let l2 = l1 + p2;
    let l3 = l2 + p3;
    let l4 = l3 + p4;
    let l5 = l4 + p5;
    let l6 = l5 + p6;
    let l7 = l6 + p7;
    let l8 = l7 + p8;
    let l9 = l8 + p9;
    let l10 = l9 + p10;
    let l11 = l10 + p11;
    let l12 = l11 + p12;
    let r13 = Seq::<char>::empty();
    let r12 = p12 + r13;
    let r11 = p11 + r12;
    let r10 = p10 + r11;
    let r9 = p9 + r10;
    let r8 = p8 + r9;
    let r7 = p7 + r8;
    let r6 = p6 + r7;
    let r5 = p5 + r6;
    let r4 = p4 + r5;
    let r3 = p3 + r4;
    let r2 = p2 + r3;
    let r1 = p1 + r2;
    assert(render_go(g) == l12);
    assert(go_pieces(g) == r1);
    assert(l12 + r13 =~= l12);
    lemma_add_assoc(l11, p12, r13);
    lemma_add_assoc(l10, p11, r12);
    lemma_add_assoc(l9, p10, r11);
    lemma_add_assoc(l8, p9, r10);
    lemma_add_assoc(l7, p8, r9);
    lemma_add_assoc(l6, p7, r8);
    lemma_add_assoc(l5, p6, r7);
    lemma_add_assoc(l4, p5, r6);
    lemma_add_assoc(l3, p4, r5);
    lemma_add_assoc(l2, p3, r4);
    lemma_add_assoc(l1, p2, r3);
    lemma_add_assoc(l0, p1, r2);
}

/// Joining texts is associative.
pub proof fn lemma_add_assoc(a: Seq<char>, b: Seq<char>, c: Seq<char>)
    ensures
        (a + b) + c == a + (b + c),
{
    assert((a + b) + c =~= a + (b + c));
}

/// A written `go` command reads back as itself.
#[verifier::rlimit(50)]
proof fn lemma_go_reads_back(g: SpecGo)
    requires
        command_reads_back(SpecUciIn::Go(g)),
    ensures
        spec_uci_in_from_line(render_in(SpecUciIn::Go(g))) == Ok::<Option<SpecUciIn>, ErrorKind>(Some(SpecUciIn::Go(g))),
{
    let v = SpecUciIn::Go(g);
    reveal_strlit("go");
    reveal_strlit("isready");
    reveal_strlit("ponderhit");
    reveal_strlit("position");
    reveal_strlit("setoption");
    reveal_strlit("stop");
    reveal_strlit("uci");
    reveal_strlit("ucinewgame");
    assert("go"@.len() != "uci"@.len());
    assert("go"@ != "uci"@);
    assert("go"@.len() != "isready"@.len());
    assert("go"@ != "isready"@);
    assert("go"@.len() != "ucinewgame"@.len());
    assert("go"@ != "ucinewgame"@);
    assert("go"@.len() != "stop"@.len());
    assert("go"@ != "stop"@);
    assert("go"@.len() != "ponderhit"@.len());
    assert("go"@ != "ponderhit"@);
    assert("go"@.len() != "setoption"@.len());
    assert("go"@ != "setoption"@);
    assert("go"@.len() != "position"@.len());
    assert("go"@ != "position"@);
    lemma_go_pieces_read_back(g);
    let line = render_in(v);
    lemma_render_go_split(g);
    lemma_read_word(Seq::<char>::empty(), "go"@, go_pieces(g));
    assert(Seq::<char>::empty() + "go"@ + go_pieces(g) =~= line);
    assert(!has_line_break("go"@));
    lemma_line_break_concat("go"@, go_pieces(g));
}

/// A command that `UciIn::to_uci_string` writes reads back with `UciIn::from_line` as
/// the same command, where its texts allow it (see `command_reads_back`).
pub proof fn law_command_reads_back(v: SpecUciIn)
    requires
        command_reads_back(v),
    ensures
        spec_uci_in_from_line(render_in(v)) == Ok::<Option<SpecUciIn>, ErrorKind>(Some(v)),
{
    match v {
        SpecUciIn::Uci => lemma_uci_reads_back(),
        SpecUciIn::Isready => lemma_isready_reads_back(),
        SpecUciIn::Ucinewgame => lemma_ucinewgame_reads_back(),
        SpecUciIn::Stop => lemma_stop_reads_back(),
        SpecUciIn::Ponderhit => lemma_ponderhit_reads_back(),
        SpecUciIn::Setoption { name, value } => lemma_setoption_reads_back(name, value),
        SpecUciIn::Position { fen, moves } => lemma_position_reads_back(moves),
        SpecUciIn::Go(g) => lemma_go_reads_back(g),
    }
}

/// Names of options are equal where they differ only in the case of ASCII letters; this
/// equality is reflexive, symmetric and transitive, and equal names feed a hasher the
/// same bytes.
pub proof fn law_option_name_equality(a: Seq<char>, b: Seq<char>, c: Seq<char>)
    ensures
        same_ignoring_ascii_case(a, a),
        same_ignoring_ascii_case(a, b) ==> same_ignoring_ascii_case(b, a),
        same_ignoring_ascii_case(a, b) && same_ignoring_ascii_case(b, c)
            ==> same_ignoring_ascii_case(a, c),
        same_ignoring_ascii_case(a, b) ==> option_name_hash_input(a) == option_name_hash_input(b),
{
}

/// A line that holds only spaces and tabs is no command and no answer.
pub proof fn law_blank_line_is_no_message(s: Seq<char>)
    requires
        all_separators(s),
    ensures
        spec_uci_in_from_line(s) == Ok::<Option<SpecUciIn>, ErrorKind>(None),
        spec_uci_out_from_line(s) == Ok::<Option<SpecUciOut>, ErrorKind>(None),
{
    lemma_read_blank(s);
    if has_line_break(s) {
        let i = choose|i: int| 0 <= i < s.len() && crate::line_break::is_line_break_char(
            #[trigger] s[i],
        );
        assert(is_separator_char(s[i]));
    }
}

/// A line that holds a carriage return or a line feed is refused, as a command and as an
/// answer, whatever else it holds.
pub proof fn law_line_break_refused(s: Seq<char>)
    requires
        has_line_break(s),
    ensures
        spec_uci_in_from_line(s) == Err::<Option<SpecUciIn>, ErrorKind>(
            ErrorKind::UnexpectedLineBreak,
        ),
        spec_uci_out_from_line(s) == Err::<Option<SpecUciOut>, ErrorKind>(
            ErrorKind::UnexpectedLineBreak,
        ),
{
}

/// Reading a token takes the separators before it and then the longest run of other
/// characters; what is left is what follows, unchanged. Where there is no token, the
/// text held only separators and nothing is left.
pub proof fn law_read_splits(s: Seq<char>)
    ensures
        match spec_read(s) {
            (Some(w), r) => {
                &&& is_word(w)
                &&& ends_token(r)
                &&& exists|p: Seq<char>| all_separators(p) && s == p + w + r
            },
            (None, r) => all_separators(s) && r.len() == 0,
        },
{
    lemma_leading_separators(s);
    let l = leading_separators(s) as int;
    let p = s.take(l);
    let t = trim_separators(s);
    lemma_word_length(t);
    assert(all_separators(p));
    if t.len() == 0 {
        assert(s =~= p);
    } else {
        let n = word_length(t) as int;
        assert(t[0] == s[l]);
        assert(s =~= p + t.take(n) + t.skip(n));
        if n < t.len() {
            assert(t.skip(n)[0] == t[n]);
        }
    }
}

/// Reading up to a stop word takes the separators before the text, then the text up to
/// the first of its separators that a stop word follows; what is left starts with that
/// separator, or is nothing where no stop word follows a separator. With no stop words,
/// the text runs to the end of the line.
pub proof fn law_read_until_splits(s: Seq<char>, stops: Seq<Seq<char>>)
    ensures
        match spec_read_until(s, stops) {
            (Some(h), r) => {
                &&& h.len() > 0
                &&& !is_separator_char(h[0])
                &&& (r.len() == 0 || stop_follows(r, 0, stops))
                &&& forall|i: int| 0 <= i < h.len() ==> !stop_follows(h + r, i, stops)
                &&& exists|p: Seq<char>| all_separators(p) && s == p + h + r
            },
            (None, r) => all_separators(s) && r.len() == 0,
        },
        stops.len() == 0 ==> spec_read_until(s, stops).1.len() == 0,
{
    lemma_leading_separators(s);
    let l = leading_separators(s) as int;
    let p = s.take(l);
    let t = trim_separators(s);
    assert(all_separators(p));
    lemma_first_stop_bounds(t, 0, stops);
    if t.len() == 0 {
        assert(s =~= p);
    } else {
        assert(t[0] == s[l]);
        match first_stop_from(t, 0, stops) {
            Some(e) => {
                let h = t.take(e);
                let r = t.skip(e);
                assert(s =~= p + h + r);
                assert(h + r =~= t);
                assert(r.skip(0) =~= t.skip(e));
                assert(r[0] == t[e]);
                assert(stop_follows(r, 0, stops));
            },
            None => {
                assert(s =~= p + t + Seq::<char>::empty());
                assert(t + Seq::<char>::empty() =~= t);
            },
        }
    }
}

/// The tokens that reading `s` again and again gives, in order, as `Parser::next` does.
pub open spec fn tokens(s: Seq<char>) -> Seq<Seq<char>>
    decreases s.len(),
{
    let (t, r) = spec_read(s);
    match t {
        Some(w) => {
            proof {
                lemma_read_rest(s);
            }
            seq![w] + tokens(r)
        },
        None => seq![],
    }
}

/// What is left of `s` once all its tokens are read.
pub open spec fn after_tokens(s: Seq<char>) -> Seq<char>
    decreases s.len(),
{
    let (t, r) = spec_read(s);
    match t {
        Some(w) => {
            proof {
                lemma_read_rest(s);
            }
            after_tokens(r)
        },
        None => r,
    }
}

/// The texts `ts` with `seps` around and between them: `seps[0]`, `ts[0]`, `seps[1]`, and
/// so on, ending with the last of `seps`.
pub open spec fn interleave(seps: Seq<Seq<char>>, ts: Seq<Seq<char>>) -> Seq<char>
    decreases ts.len(),
{
    if seps.len() == 0 {
        seq![]
    } else if ts.len() == 0 {
        seps[0]
    } else {
        seps[0] + ts[0] + interleave(seps.drop_first(), ts.drop_first())
    }
}

/// Reading a line token by token, as `Parser::next` does, gives the words of the line in
/// order: the line is its tokens with runs of spaces and tabs around and between them
/// (handed back as `seps`; at least one separator between two tokens), and each token is
/// a word. After the last token a read gives no token and leaves nothing, so every later
/// read gives no token either.
pub proof fn law_tokens_split(s: Seq<char>) -> (seps: Seq<Seq<char>>)
    ensures
        seps.len() == tokens(s).len() + 1,
        forall|i: int| 0 <= i < seps.len() ==> all_separators(#[trigger] seps[i]),
        forall|i: int| 0 < i < tokens(s).len() ==> (#[trigger] seps[i]).len() > 0,
        forall|i: int| 0 <= i < tokens(s).len() ==> is_word(#[trigger] tokens(s)[i]),
        s == interleave(seps, tokens(s)),
        after_tokens(s).len() == 0,
        spec_read(after_tokens(s)) == (None::<Seq<char>>, Seq::<char>::empty()),
    decreases s.len(),
{
    law_read_splits(s);
    lemma_read_rest(s);
    let (t, r) = spec_read(s);
    match t {
        Some(w) => {
            let p = choose|p: Seq<char>| all_separators(p) && s == p + w + r;
            let rest = law_tokens_split(r);
            let seps = seq![p] + rest;
            let ts = tokens(s);
            assert(ts == seq![w] + tokens(r));
            assert(ts.drop_first() =~= tokens(r));
            assert(seps.drop_first() =~= rest);
            assert(interleave(seps, ts) == p + w + interleave(rest, tokens(r)));
            assert forall|i: int| 0 <= i < seps.len() implies all_separators(#[trigger] seps[i]) by {
                if i > 0 {
                    assert(seps[i] == rest[i - 1]);
                }
            }
            assert forall|i: int| 0 <= i < ts.len() implies is_word(#[trigger] ts[i]) by {
                if i > 0 {
                    assert(ts[i] == tokens(r)[i - 1]);
                }
            }
            assert forall|i: int| 0 < i < ts.len() implies (#[trigger] seps[i]).len() > 0 by {
                assert(seps[i] == rest[i - 1]);
                if i == 1 {
                    let tr = tokens(r);
                    assert(tr.len() > 0);
                    assert(r == rest[0] + tr[0] + interleave(rest.drop_first(), tr.drop_first()));
                    if rest[0].len() == 0 {
                        assert(is_word(tr[0]));
                        assert(r[0] == tr[0][0]);
                    }
                }
            }
            seps
        },
        None => {
            let seps = seq![s];
            assert(interleave(seps, tokens(s)) == s);
            seps
        },
    }
}

/// What follows the position in a `position` command: nothing where there are no moves,
/// else ` moves ` and the moves, each after a space.
pub open spec fn moves_part(ms: Seq<Seq<char>>) -> Seq<char> {
    if ms.len() > 0 {
        " moves "@ + render_moves(ms)
    } else {
        seq![]
    }
}

/// The command that reading `position`, the text `t` and then the moves `ms` gives:
/// the start position where `t` is `startpos`, else the position that `shakmaty` reads
/// from `t` (or the refusal of `t`), with the moves `ms`.
pub open spec fn position_read(t: Seq<char>, ms: Seq<Seq<char>>) -> Result<
    Option<SpecUciIn>,
    ErrorKind,
> {
    if t == "startpos"@ {
        Ok(Some(SpecUciIn::Position { fen: None, moves: ms }))
    } else {
        match fen_text(t) {
            Some(f) => Ok(Some(SpecUciIn::Position { fen: Some(f), moves: ms })),
            None => Err(ErrorKind::InvalidFen),
        }
    }
}

/// Reading a `position` command: the text up to `moves` alone decides the position,
/// whether or not moves follow, and every move after `moves` is read, in order. For a
/// text `t` that no `moves` token interrupts, the line `position t`, followed by
/// ` moves ` and the moves `ms` where there are any, reads as the position of `t` with
/// exactly the moves `ms`.
pub proof fn law_position_reads(t: Seq<char>, ms: Seq<Seq<char>>)
    requires
        is_phrase(t, seq!["moves"@]),
        !has_line_break(t),
        all_move_texts(ms),
    ensures
        spec_uci_in_from_line("position "@ + t + moves_part(ms)) == position_read(t, ms),
{
    reveal_strlit(" moves ");
    reveal_strlit("isready");
    reveal_strlit("moves");
    reveal_strlit("ponderhit");
    reveal_strlit("position");
    reveal_strlit("position ");
    reveal_strlit("setoption");
    reveal_strlit("stop");
    reveal_strlit("uci");
    reveal_strlit("ucinewgame");
    assert("position"@.len() != "uci"@.len());
    assert("position"@ != "uci"@);
    assert("position"@.len() != "isready"@.len());
    assert("position"@ != "isready"@);
    assert("position"@.len() != "ucinewgame"@.len());
    assert("position"@ != "ucinewgame"@);
    assert("position"@.len() != "stop"@.len());
    assert("position"@ != "stop"@);
    assert("position"@.len() != "ponderhit"@.len());
    assert("position"@ != "ponderhit"@);
    assert("position"@.len() != "setoption"@.len());
    assert("position"@ != "setoption"@);
    let mt = moves_part(ms);
    let line = "position "@ + t + mt;
    assert(line =~= "position"@ + (seq![' '] + t + mt));
    let stops = seq!["moves"@];
    if ms.len() > 0 {
        assert(mt =~= seq![' '] + "moves"@ + (seq![' '] + render_moves(ms)));
        lemma_read_word(seq![' '], "moves"@, seq![' '] + render_moves(ms));
        assert(mt.skip(0) =~= mt);
        assert(stops[0] == "moves"@);
        assert(stop_follows(mt, 0, stops));
        lemma_parse_all_moves_render(seq![' '], ms);
        assert(!has_line_break(" moves "@));
        lemma_render_moves_no_line_break(ms);
        lemma_line_break_concat(" moves "@, render_moves(ms));
    } else {
        assert(mt =~= Seq::<char>::empty());
        lemma_read_blank(mt);
        assert(ms =~= Seq::<Seq<char>>::empty());
    }
    lemma_read_until_phrase(seq![' '], t, mt, stops);
    assert(t[0] != ' ');
    assert(ends_token(seq![' '] + t + mt));
    lemma_read_word(Seq::<char>::empty(), "position"@, seq![' '] + t + mt);
    assert(Seq::<char>::empty() + "position"@ + (seq![' '] + t + mt) =~= line);
    assert(!has_line_break("position "@));
    lemma_line_break_concat("position "@, t);
    lemma_line_break_concat("position "@ + t, mt);
}

/// A `position` command with a position in Forsyth-Edwards notation is written as
/// `position fen`, the position, and the moves where there are any, so it reads back
/// with all of its moves, in order, and with the position that `shakmaty` reads from the
/// text `fen` and the position (or the refusal of that text).
pub proof fn law_position_fen_written(f: Seq<char>, ms: Seq<Seq<char>>)
    requires
        is_phrase("fen "@ + f, seq!["moves"@]),
        !has_line_break(f),
        all_move_texts(ms),
    ensures
        spec_uci_in_from_line(render_in(SpecUciIn::Position { fen: Some(f), moves: ms }))
            == position_read("fen "@ + f, ms),
{
    reveal_strlit("position fen ");
    reveal_strlit("position ");
    reveal_strlit("fen ");
    reveal_strlit("startpos");
    let t = "fen "@ + f;
    assert(render_in(SpecUciIn::Position { fen: Some(f), moves: ms }) =~= "position "@ + t
        + moves_part(ms));
    assert(!has_line_break("fen "@));
    lemma_line_break_concat("fen "@, f);
    law_position_reads(t, ms);
}

/// The capital ASCII letters, in order.
pub open spec fn capital_letters() -> Seq<char> {
    "ABCDEFGHIJKLMNOPQRSTUVWXYZ"@
}

/// The small ASCII letters, in order.
pub open spec fn small_letters() -> Seq<char> {
    "abcdefghijklmnopqrstuvwxyz"@
}

/// Whether `a` is a capital ASCII letter and `b` the small letter of the same place in
/// the alphabet.
pub open spec fn letter_pair(a: char, b: char) -> bool {
    exists|i: int| 0 <= i < 26 && capital_letters()[i] == a && small_letters()[i] == b
}

/// The bytes of one ASCII character, folded, are its code folded.
proof fn lemma_folded_ascii_char(c: char)
    requires
        (c as u32) < 0x80,
    ensures
        ascii_folded(encode_utf8(seq![c])) == seq![ascii_lowercase_byte((c as u32) as u8)],
{
    lemma_ascii_scalar(c);
    assert(seq![c].drop_first() =~= Seq::<char>::empty());
    assert(encode_utf8(Seq::<char>::empty()) =~= Seq::<u8>::empty());
    assert(encode_utf8(seq![c]) == encode_scalar(c as u32) + encode_utf8(seq![c].drop_first()));
    assert(encode_utf8(seq![c]) =~= seq![(c as u32) as u8]);
    assert(ascii_folded(seq![(c as u32) as u8]) =~= seq![ascii_lowercase_byte((c as u32) as u8)]);
}

/// A capital letter and its small letter fold to the same byte.
proof fn lemma_letter_pair_folds(a: char, b: char)
    requires
        letter_pair(a, b),
    ensures
        (a as u32) < 0x80,
        (b as u32) < 0x80,
        ascii_lowercase_byte((a as u32) as u8) == ascii_lowercase_byte((b as u32) as u8),
{
    reveal_strlit("ABCDEFGHIJKLMNOPQRSTUVWXYZ");
    reveal_strlit("abcdefghijklmnopqrstuvwxyz");
    let i = choose|i: int| 0 <= i < 26 && capital_letters()[i] == a && small_letters()[i] == b;
        if i == 0 {
            assert(a == 'A' && b == 'a');
        } else if i == 1 {
            assert(a == 'B' && b == 'b');
        } else if i == 2 {
            assert(a == 'C' && b == 'c');
        } else if i == 3 {
            assert(a == 'D' && b == 'd');
        } else if i == 4 {
            assert(a == 'E' && b == 'e');
        } else if i == 5 {
            assert(a == 'F' && b == 'f');
        } else if i == 6 {
            assert(a == 'G' && b == 'g');
        } else if i == 7 {
            assert(a == 'H' && b == 'h');
        } else if i == 8 {
            assert(a == 'I' && b == 'i');
        } else if i == 9 {
            assert(a == 'J' && b == 'j');
        } else if i == 10 {
            assert(a == 'K' && b == 'k');
        } else if i == 11 {
            assert(a == 'L' && b == 'l');
        } else if i == 12 {
            assert(a == 'M' && b == 'm');
        } else if i == 13 {
            assert(a == 'N' && b == 'n');
        } else if i == 14 {
            assert(a == 'O' && b == 'o');
        } else if i == 15 {
            assert(a == 'P' && b == 'p');
        } else if i == 16 {
            assert(a == 'Q' && b == 'q');
        } else if i == 17 {
            assert(a == 'R' && b == 'r');
        } else if i == 18 {
            assert(a == 'S' && b == 's');
        } else if i == 19 {
            assert(a == 'T' && b == 't');
        } else if i == 20 {
            assert(a == 'U' && b == 'u');
        } else if i == 21 {
            assert(a == 'V' && b == 'v');
        } else if i == 22 {
            assert(a == 'W' && b == 'w');
        } else if i == 23 {
            assert(a == 'X' && b == 'x');
        } else if i == 24 {
            assert(a == 'Y' && b == 'y');
        } else if i == 25 {
            assert(a == 'Z' && b == 'z');
        }
}

/// ASCII characters are the same in names of options, ignoring case, exactly where they
/// are equal or are a capital letter and the small letter of the same place in the
/// alphabet (`A` and `a` to `Z` and `z`); no other ASCII character is folded.
pub proof fn law_ascii_case_folding(c: char, d: char)
    requires
        (c as u32) < 0x80,
        (d as u32) < 0x80,
    ensures
        same_ignoring_ascii_case(seq![c], seq![d]) <==> (c == d || letter_pair(c, d)
            || letter_pair(d, c)),
{
    reveal_strlit("ABCDEFGHIJKLMNOPQRSTUVWXYZ");
    reveal_strlit("abcdefghijklmnopqrstuvwxyz");
    lemma_folded_ascii_char(c);
    lemma_folded_ascii_char(d);
    let upper = capital_letters();
    let lower = small_letters();
    if letter_pair(c, d) {
        lemma_letter_pair_folds(c, d);
    }
    if letter_pair(d, c) {
        lemma_letter_pair_folds(d, c);
    }
    if same_ignoring_ascii_case(seq![c], seq![d]) && c != d {
        assert(seq![ascii_lowercase_byte((c as u32) as u8)][0] == seq![ascii_lowercase_byte(
            (d as u32) as u8,
        )][0]);
        if 65 <= (c as u32) <= 90 {
            if c == 'A' {
                assert(upper[0] == c && lower[0] == d);
            } else if c == 'B' {
                assert(upper[1] == c && lower[1] == d);
            } else if c == 'C' {
                assert(upper[2] == c && lower[2] == d);
            } else if c == 'D' {
                assert(upper[3] == c && lower[3] == d);
            } else if c == 'E' {
                assert(upper[4] == c && lower[4] == d);
            } else if c == 'F' {
                assert(upper[5] == c && lower[5] == d);
            } else if c == 'G' {
                assert(upper[6] == c && lower[6] == d);
            } else if c == 'H' {
                assert(upper[7] == c && lower[7] == d);
            } else if c == 'I' {
                assert(upper[8] == c && lower[8] == d);
            } else if c == 'J' {
                assert(upper[9] == c && lower[9] == d);
            } else if c == 'K' {
                assert(upper[10] == c && lower[10] == d);
            } else if c == 'L' {
                assert(upper[11] == c && lower[11] == d);
            } else if c == 'M' {
                assert(upper[12] == c && lower[12] == d);
            } else if c == 'N' {
                assert(upper[13] == c && lower[13] == d);
            } else if c == 'O' {
                assert(upper[14] == c && lower[14] == d);
            } else if c == 'P' {
                assert(upper[15] == c && lower[15] == d);
            } else if c == 'Q' {
                assert(upper[16] == c && lower[16] == d);
            } else if c == 'R' {
                assert(upper[17] == c && lower[17] == d);
            } else if c == 'S' {
                assert(upper[18] == c && lower[18] == d);
            } else if c == 'T' {
                assert(upper[19] == c && lower[19] == d);
            } else if c == 'U' {
                assert(upper[20] == c && lower[20] == d);
            } else if c == 'V' {
                assert(upper[21] == c && lower[21] == d);
            } else if c == 'W' {
                assert(upper[22] == c && lower[22] == d);
            } else if c == 'X' {
                assert(upper[23] == c && lower[23] == d);
            } else if c == 'Y' {
                assert(upper[24] == c && lower[24] == d);
            } else if c == 'Z' {
                assert(upper[25] == c && lower[25] == d);
            }
        } else {
            if d == 'A' {
                assert(upper[0] == d && lower[0] == c);
            } else if d == 'B' {
                assert(upper[1] == d && lower[1] == c);
            } else if d == 'C' {
                assert(upper[2] == d && lower[2] == c);
            } else if d == 'D' {
                assert(upper[3] == d && lower[3] == c);
            } else if d == 'E' {
                assert(upper[4] == d && lower[4] == c);
            } else if d == 'F' {
                assert(upper[5] == d && lower[5] == c);
            } else if d == 'G' {
                assert(upper[6] == d && lower[6] == c);
            } else if d == 'H' {
                assert(upper[7] == d && lower[7] == c);
            } else if d == 'I' {
                assert(upper[8] == d && lower[8] == c);
            } else if d == 'J' {
                assert(upper[9] == d && lower[9] == c);
            } else if d == 'K' {
                assert(upper[10] == d && lower[10] == c);
            } else if d == 'L' {
                assert(upper[11] == d && lower[11] == c);
            } else if d == 'M' {
                assert(upper[12] == d && lower[12] == c);
            } else if d == 'N' {
                assert(upper[13] == d && lower[13] == c);
            } else if d == 'O' {
                assert(upper[14] == d && lower[14] == c);
            } else if d == 'P' {
                assert(upper[15] == d && lower[15] == c);
            } else if d == 'Q' {
                assert(upper[16] == d && lower[16] == c);
            } else if d == 'R' {
                assert(upper[17] == d && lower[17] == c);
            } else if d == 'S' {
                assert(upper[18] == d && lower[18] == c);
            } else if d == 'T' {
                assert(upper[19] == d && lower[19] == c);
            } else if d == 'U' {
                assert(upper[20] == d && lower[20] == c);
            } else if d == 'V' {
                assert(upper[21] == d && lower[21] == c);
            } else if d == 'W' {
                assert(upper[22] == d && lower[22] == c);
            } else if d == 'X' {
                assert(upper[23] == d && lower[23] == c);
            } else if d == 'Y' {
                assert(upper[24] == d && lower[24] == c);
            } else if d == 'Z' {
                assert(upper[25] == d && lower[25] == c);
            }
        }
    }
}

} // verus!
