//! What holds of the words of written lines: each command and each answer is written
//! with the keywords of the protocol.

use vstd::prelude::*;
use crate::info_laws::{
    info_pieces, lemma_listed_lines_of_moves, lemma_render_info_split, lines_of_moves,
};
use crate::laws::{go_pieces, law_read_splits, lemma_render_go_split, tokens};
use crate::chess::is_move_text;
use crate::numbers::{decimal, lemma_decimal_is_word, lemma_signed_decimal_is_word, signed_decimal};
use crate::readback::{all_move_texts, lemma_move_no_line_break};
use crate::render::{
    answer_lines, lists_lines, nat_of_u32, nat_of_u64, render_currlines, render_flag, render_in,
    render_moves, render_number, render_option, render_out, render_refutations, render_score,
    render_text, render_vars, written_answer,
};
use crate::text_lemmas::{all_separators, ends_token, is_word, lemma_read_blank, lemma_read_word};
use crate::tokens::{lemma_read_rest, spec_read, trim_separators};
use crate::types::{Eval, Score, SpecGo, SpecInfo, SpecUciIn, SpecUciOption, SpecUciOut};

verus! {

/// Text that starts with a separator, or is empty, still does when more such text
/// follows it.
proof fn lemma_ends_token_concat(a: Seq<char>, b: Seq<char>)
    requires
        ends_token(a),
        ends_token(b),
    ensures
        ends_token(a + b),
{
    if a.len() == 0 {
        assert(a + b =~= b);
    } else {
        assert((a + b)[0] == a[0]);
    }
}

/// A label that starts with a space, and what follows it, starts with a separator.
proof fn lemma_label_ends_token(label: Seq<char>, x: Seq<char>)
    requires
        label.len() > 0,
        label[0] == ' ',
    ensures
        ends_token(label + x),
{
    assert((label + x)[0] == label[0]);
}

/// Written moves are empty or start with a space.
proof fn lemma_moves_end_token(ms: Seq<Seq<char>>)
    ensures
        ends_token(render_moves(ms)),
    decreases ms.len(),
{
    if ms.len() > 0 {
        lemma_moves_end_token(ms.drop_last());
        lemma_label_ends_token(seq![' '], ms.last());
        lemma_ends_token_concat(render_moves(ms.drop_last()), seq![' '] + ms.last());
        assert(render_moves(ms) =~= render_moves(ms.drop_last()) + (seq![' '] + ms.last()));
    }
}

/// Written refutation lines are empty or start with a space.
proof fn lemma_refutations_end_token(ls: Seq<(Seq<char>, Seq<Seq<char>>)>)
    ensures
        ends_token(render_refutations(ls)),
    decreases ls.len(),
{
    reveal_strlit(" refutation ");
    if ls.len() > 0 {
        lemma_refutations_end_token(ls.drop_last());
        let x = " refutation "@ + ls.last().0 + render_moves(ls.last().1);
        assert(" refutation "@[0] == ' ');
        lemma_label_ends_token(" refutation "@, ls.last().0 + render_moves(ls.last().1));
        assert(" refutation "@ + (ls.last().0 + render_moves(ls.last().1)) =~= x);
        lemma_ends_token_concat(render_refutations(ls.drop_last()), x);
        assert(render_refutations(ls) =~= render_refutations(ls.drop_last()) + x);
    }
}

/// Written current lines are empty or start with a space.
proof fn lemma_currlines_end_token(ls: Seq<(u32, Seq<Seq<char>>)>)
    ensures
        ends_token(render_currlines(ls)),
    decreases ls.len(),
{
    reveal_strlit(" currline ");
    if ls.len() > 0 {
        lemma_currlines_end_token(ls.drop_last());
        let d = crate::numbers::decimal(ls.last().0 as nat);
        let x = " currline "@ + d + render_moves(ls.last().1);
        assert(" currline "@[0] == ' ');
        lemma_label_ends_token(" currline "@, d + render_moves(ls.last().1));
        assert(" currline "@ + (d + render_moves(ls.last().1)) =~= x);
        lemma_ends_token_concat(render_currlines(ls.drop_last()), x);
        assert(render_currlines(ls) =~= render_currlines(ls.drop_last()) + x);
    }
}

/// The written arguments of a `go` command are empty or start with a space.
proof fn lemma_go_pieces_end_token(g: crate::types::SpecGo)
    ensures
        ends_token(go_pieces(g)),
{
    reveal_strlit(" binc ");
    reveal_strlit(" btime ");
    reveal_strlit(" depth ");
    reveal_strlit(" infinite");
    reveal_strlit(" mate ");
    reveal_strlit(" movestogo ");
    reveal_strlit(" movetime ");
    reveal_strlit(" nodes ");
    reveal_strlit(" ponder");
    reveal_strlit(" searchmoves");
    reveal_strlit(" winc ");
    reveal_strlit(" wtime ");
    assert(" searchmoves"@[0] == ' ');
    assert(" ponder"@[0] == ' ');
    assert(" wtime "@[0] == ' ');
    assert(" btime "@[0] == ' ');
    assert(" winc "@[0] == ' ');
    assert(" binc "@[0] == ' ');
    assert(" movestogo "@[0] == ' ');
    assert(" depth "@[0] == ' ');
    assert(" nodes "@[0] == ' ');
    assert(" mate "@[0] == ' ');
    assert(" movetime "@[0] == ' ');
    assert(" infinite"@[0] == ' ');
    let p0 = (match g.searchmoves { Some(ms) => " searchmoves"@ + render_moves(ms), None => seq![] });
    assert(ends_token(p0));
    let p1 = crate::render::render_flag(" ponder"@, g.ponder);
    assert(ends_token(p1));
    let p2 = crate::render::render_number(" wtime "@, crate::render::nat_of_u64(g.wtime));
    assert(ends_token(p2));
    let p3 = crate::render::render_number(" btime "@, crate::render::nat_of_u64(g.btime));
    assert(ends_token(p3));
    let p4 = crate::render::render_number(" winc "@, crate::render::nat_of_u64(g.winc));
    assert(ends_token(p4));
    let p5 = crate::render::render_number(" binc "@, crate::render::nat_of_u64(g.binc));
    assert(ends_token(p5));
    let p6 = crate::render::render_number(" movestogo "@, crate::render::nat_of_u32(g.movestogo));
    assert(ends_token(p6));
    let p7 = crate::render::render_number(" depth "@, crate::render::nat_of_u32(g.depth));
    assert(ends_token(p7));
    let p8 = crate::render::render_number(" nodes "@, crate::render::nat_of_u64(g.nodes));
    assert(ends_token(p8));
    let p9 = crate::render::render_number(" mate "@, crate::render::nat_of_u32(g.mate));
    assert(ends_token(p9));
    let p10 = crate::render::render_number(" movetime "@, crate::render::nat_of_u64(g.movetime));
    assert(ends_token(p10));
    let p11 = crate::render::render_flag(" infinite"@, g.infinite);
    assert(ends_token(p11));
    let r12 = Seq::<char>::empty();
    lemma_ends_token_concat(p11, r12);
    let r11 = p11 + r12;
    lemma_ends_token_concat(p10, r11);
    let r10 = p10 + r11;
    lemma_ends_token_concat(p9, r10);
    let r9 = p9 + r10;
    lemma_ends_token_concat(p8, r9);
    let r8 = p8 + r9;
    lemma_ends_token_concat(p7, r8);
    let r7 = p7 + r8;
    lemma_ends_token_concat(p6, r7);
    let r6 = p6 + r7;
    lemma_ends_token_concat(p5, r6);
    let r5 = p5 + r6;
    lemma_ends_token_concat(p4, r5);
    let r4 = p4 + r5;
    lemma_ends_token_concat(p3, r4);
    let r3 = p3 + r4;
    lemma_ends_token_concat(p2, r3);
    let r2 = p2 + r3;
    lemma_ends_token_concat(p1, r2);
    let r1 = p1 + r2;
    lemma_ends_token_concat(p0, r1);
    let r0 = p0 + r1;
    assert(go_pieces(g) == r0);
}

/// The written fields of an `info` answer are empty or start with a space.
proof fn lemma_info_pieces_end_token(i: SpecInfo, lines: Seq<(u32, Seq<Seq<char>>)>)
    ensures
        ends_token(info_pieces(i, lines)),
{
    reveal_strlit(" cpuload ");
    reveal_strlit(" currmove ");
    reveal_strlit(" currmovenumber ");
    reveal_strlit(" depth ");
    reveal_strlit(" hashfull ");
    reveal_strlit(" multipv ");
    reveal_strlit(" nodes ");
    reveal_strlit(" nps ");
    reveal_strlit(" pv");
    reveal_strlit(" sbhits ");
    reveal_strlit(" score ");
    reveal_strlit(" seldepth ");
    reveal_strlit(" string ");
    reveal_strlit(" tbhits ");
    reveal_strlit(" time ");
    assert(" multipv "@[0] == ' ');
    assert(" depth "@[0] == ' ');
    assert(" seldepth "@[0] == ' ');
    assert(" time "@[0] == ' ');
    assert(" nodes "@[0] == ' ');
    assert(" pv"@[0] == ' ');
    assert(" score "@[0] == ' ');
    assert(" currmove "@[0] == ' ');
    assert(" currmovenumber "@[0] == ' ');
    assert(" hashfull "@[0] == ' ');
    assert(" nps "@[0] == ' ');
    assert(" tbhits "@[0] == ' ');
    assert(" sbhits "@[0] == ' ');
    assert(" cpuload "@[0] == ' ');
    assert(" string "@[0] == ' ');
    lemma_refutations_end_token(i.refutation);
    lemma_currlines_end_token(lines);
    let p0 = crate::render::render_number(" multipv "@, crate::render::nat_of_u32(i.multipv));
    assert(ends_token(p0));
    let p1 = crate::render::render_number(" depth "@, crate::render::nat_of_u32(i.depth));
    assert(ends_token(p1));
    let p2 = crate::render::render_number(" seldepth "@, crate::render::nat_of_u32(i.seldepth));
    assert(ends_token(p2));
    let p3 = crate::render::render_number(" time "@, crate::render::nat_of_u64(i.time));
    assert(ends_token(p3));
    let p4 = crate::render::render_number(" nodes "@, crate::render::nat_of_u64(i.nodes));
    assert(ends_token(p4));
    let p5 = (match i.pv { Some(ms) => " pv"@ + render_moves(ms), None => seq![] });
    assert(ends_token(p5));
    let p6 = (match i.score { Some(s) => " score "@ + crate::render::render_score(s), None => seq![] });
    assert(ends_token(p6));
    let p7 = crate::render::render_text(" currmove "@, i.currmove);
    assert(ends_token(p7));
    let p8 = crate::render::render_number(" currmovenumber "@, crate::render::nat_of_u32(i.currmovenumber));
    assert(ends_token(p8));
    let p9 = crate::render::render_number(" hashfull "@, crate::render::nat_of_u32(i.hashfull));
    assert(ends_token(p9));
    let p10 = crate::render::render_number(" nps "@, crate::render::nat_of_u64(i.nps));
    assert(ends_token(p10));
    let p11 = crate::render::render_number(" tbhits "@, crate::render::nat_of_u64(i.tbhits));
    assert(ends_token(p11));
    let p12 = crate::render::render_number(" sbhits "@, crate::render::nat_of_u64(i.sbhits));
    assert(ends_token(p12));
    let p13 = crate::render::render_number(" cpuload "@, crate::render::nat_of_u32(i.cpuload));
    assert(ends_token(p13));
    let p14 = render_refutations(i.refutation);
    assert(ends_token(p14));
    let p15 = render_currlines(lines);
    assert(ends_token(p15));
    let p16 = crate::render::render_text(" string "@, i.string);
    assert(ends_token(p16));
    let r17 = Seq::<char>::empty();
    lemma_ends_token_concat(p16, r17);
    let r16 = p16 + r17;
    lemma_ends_token_concat(p15, r16);
    let r15 = p15 + r16;
    lemma_ends_token_concat(p14, r15);
    let r14 = p14 + r15;
    lemma_ends_token_concat(p13, r14);
    let r13 = p13 + r14;
    lemma_ends_token_concat(p12, r13);
    let r12 = p12 + r13;
    lemma_ends_token_concat(p11, r12);
    let r11 = p11 + r12;
    lemma_ends_token_concat(p10, r11);
    let r10 = p10 + r11;
    lemma_ends_token_concat(p9, r10);
    let r9 = p9 + r10;
    lemma_ends_token_concat(p8, r9);
    let r8 = p8 + r9;
    lemma_ends_token_concat(p7, r8);
    let r7 = p7 + r8;
    lemma_ends_token_concat(p6, r7);
    let r6 = p6 + r7;
    lemma_ends_token_concat(p5, r6);
    let r5 = p5 + r6;
    lemma_ends_token_concat(p4, r5);
    let r4 = p4 + r5;
    lemma_ends_token_concat(p3, r4);
    let r3 = p3 + r4;
    lemma_ends_token_concat(p2, r3);
    let r2 = p2 + r3;
    lemma_ends_token_concat(p1, r2);
    let r1 = p1 + r2;
    lemma_ends_token_concat(p0, r1);
    let r0 = p0 + r1;
    assert(info_pieces(i, lines) == r0);
}

/// Reading the tokens of text that holds only separators gives none.
proof fn lemma_tokens_blank(s: Seq<char>)
    requires
        all_separators(s),
    ensures
        tokens(s) == Seq::<Seq<char>>::empty(),
{
    lemma_read_blank(s);
}

/// The tokens of two texts, where the second is empty or starts with a separator, are
/// the tokens of the first and then those of the second.
pub proof fn lemma_tokens_concat(a: Seq<char>, b: Seq<char>)
    requires
        ends_token(b),
    ensures
        tokens(a + b) == tokens(a) + tokens(b),
    decreases a.len(),
{
    law_read_splits(a);
    lemma_read_rest(a);
    let (t, r) = spec_read(a);
    match t {
        Some(w) => {
            let p = choose|p: Seq<char>| all_separators(p) && a == p + w + r;
            assert(ends_token(r + b)) by {
                if r.len() == 0 {
                    assert(r + b =~= b);
                } else {
                    assert((r + b)[0] == r[0]);
                }
            }
            lemma_read_word(p, w, r + b);
            assert(a + b =~= p + w + (r + b));
            lemma_tokens_concat(r, b);
            assert(tokens(a + b) == seq![w] + tokens(r + b));
            assert(tokens(a) == seq![w] + tokens(r));
            assert(tokens(a + b) =~= tokens(a) + tokens(b));
        },
        None => {
            lemma_tokens_blank(a);
            law_read_splits(b);
            let (tb, rb) = spec_read(b);
            match tb {
                Some(w) => {
                    let q = choose|q: Seq<char>| all_separators(q) && b == q + w + rb;
                    assert(all_separators(a + q)) by {
                        assert forall|i: int| 0 <= i < (a + q).len() implies crate::tokens::is_separator_char(
                            #[trigger] (a + q)[i],
                        ) by {
                            if i < a.len() {
                                assert((a + q)[i] == a[i]);
                            } else {
                                assert((a + q)[i] == q[i - a.len()]);
                            }
                        }
                    }
                    lemma_read_word(a + q, w, rb);
                    lemma_read_word(q, w, rb);
                    assert(a + b =~= a + q + w + rb);
                    assert(tokens(a + b) == seq![w] + tokens(rb));
                    assert(tokens(b) == seq![w] + tokens(rb));
                    assert(tokens(a + b) =~= tokens(a) + tokens(b));
                },
                None => {
                    assert(all_separators(a + b)) by {
                        assert forall|i: int| 0 <= i < (a + b).len() implies crate::tokens::is_separator_char(
                            #[trigger] (a + b)[i],
                        ) by {
                            if i < a.len() {
                                assert((a + b)[i] == a[i]);
                            } else {
                                assert((a + b)[i] == b[i - a.len()]);
                            }
                        }
                    }
                    lemma_tokens_blank(a + b);
                    lemma_tokens_blank(b);
                    assert(tokens(a + b) =~= tokens(a) + tokens(b));
                },
            }
        },
    }
}

/// A space and a word are that one token.
proof fn lemma_tokens_spaced_word(w: Seq<char>)
    requires
        is_word(w),
    ensures
        tokens(seq![' '] + w) == seq![w],
{
    lemma_read_word(seq![' '], w, Seq::<char>::empty());
    assert(seq![' '] + w + Seq::<char>::empty() =~= seq![' '] + w);
    lemma_tokens_blank(Seq::<char>::empty());
    assert(seq![w] + Seq::<Seq<char>>::empty() =~= seq![w]);
}

/// Written moves are those moves as tokens.
proof fn lemma_tokens_moves(ms: Seq<Seq<char>>)
    requires
        forall|i: int| 0 <= i < ms.len() ==> is_word(#[trigger] ms[i]),
    ensures
        tokens(render_moves(ms)) == ms,
    decreases ms.len(),
{
    if ms.len() == 0 {
        lemma_tokens_blank(render_moves(ms));
        assert(ms =~= Seq::<Seq<char>>::empty());
    } else {
        let init = ms.drop_last();
        assert forall|i: int| 0 <= i < init.len() implies is_word(#[trigger] init[i]) by {
            assert(init[i] == ms[i]);
        }
        lemma_tokens_moves(init);
        lemma_tokens_spaced_word(ms.last());
        lemma_label_ends_token(seq![' '], ms.last());
        lemma_tokens_concat(render_moves(init), seq![' '] + ms.last());
        assert(render_moves(ms) =~= render_moves(init) + (seq![' '] + ms.last()));
        assert(init + seq![ms.last()] =~= ms);
    }
}

/// A label of one keyword between spaces, then a word: those two tokens.
proof fn lemma_tokens_keyed(k: Seq<char>, w: Seq<char>)
    requires
        is_word(k),
        is_word(w),
    ensures
        tokens(seq![' '] + k + seq![' '] + w) == seq![k, w],
{
    lemma_tokens_spaced_word(k);
    lemma_tokens_spaced_word(w);
    lemma_label_ends_token(seq![' '], w);
    lemma_tokens_concat(seq![' '] + k, seq![' '] + w);
    assert(seq![' '] + k + seq![' '] + w =~= (seq![' '] + k) + (seq![' '] + w));
    assert(seq![k] + seq![w] =~= seq![k, w]);
}

/// The keyword `k` and the numeral of the number, where there is one.
pub open spec fn numbered(k: Seq<char>, v: Option<nat>) -> Seq<Seq<char>> {
    match v {
        Some(n) => seq![k, decimal(n)],
        None => seq![],
    }
}

/// The keyword `k`, where `flag` holds.
pub open spec fn flagged(k: Seq<char>, flag: bool) -> Seq<Seq<char>> {
    if flag {
        seq![k]
    } else {
        seq![]
    }
}

/// The words of a `go` command with the arguments `g`, in the order of the protocol.
pub open spec fn go_words_of(g: SpecGo) -> Seq<Seq<char>> {
    seq!["go"@] + ((match g.searchmoves { Some(ms) => seq!["searchmoves"@] + ms, None => seq![] }) + (flagged("ponder"@, g.ponder) + (numbered("wtime"@, nat_of_u64(g.wtime)) + (numbered("btime"@, nat_of_u64(g.btime)) + (numbered("winc"@, nat_of_u64(g.winc)) + (numbered("binc"@, nat_of_u64(g.binc)) + (numbered("movestogo"@, nat_of_u32(g.movestogo)) + (numbered("depth"@, nat_of_u32(g.depth)) + (numbered("nodes"@, nat_of_u64(g.nodes)) + (numbered("mate"@, nat_of_u32(g.mate)) + (numbered("movetime"@, nat_of_u64(g.movetime)) + (flagged("infinite"@, g.infinite) + Seq::<Seq<char>>::empty()))))))))))))
}

/// A written number after its keyword: those two tokens.
proof fn lemma_tokens_numbered(label: Seq<char>, k: Seq<char>, v: Option<nat>)
    requires
        label == seq![' '] + k + seq![' '],
        is_word(k),
    ensures
        tokens(render_number(label, v)) == numbered(k, v),
        ends_token(render_number(label, v)),
{
    match v {
        Some(n) => {
            lemma_decimal_is_word(n);
            lemma_tokens_keyed(k, decimal(n));
            assert(render_number(label, v) =~= seq![' '] + k + seq![' '] + decimal(n));
            assert(render_number(label, v)[0] == ' ');
        },
        None => {
            lemma_tokens_blank(render_number(label, v));
        },
    }
}

/// A written flag: its keyword, where it holds.
proof fn lemma_tokens_flagged(label: Seq<char>, k: Seq<char>, flag: bool)
    requires
        label == seq![' '] + k,
        is_word(k),
    ensures
        tokens(render_flag(label, flag)) == flagged(k, flag),
        ends_token(render_flag(label, flag)),
{
    if flag {
        lemma_tokens_spaced_word(k);
    } else {
        lemma_tokens_blank(render_flag(label, flag));
    }
}

/// A keyword and written moves: the keyword and the moves, as tokens.
proof fn lemma_tokens_keyed_moves(k: Seq<char>, ms: Seq<Seq<char>>)
    requires
        is_word(k),
        forall|i: int| 0 <= i < ms.len() ==> is_word(#[trigger] ms[i]),
    ensures
        tokens(seq![' '] + k + render_moves(ms)) == seq![k] + ms,
        ends_token(seq![' '] + k + render_moves(ms)),
{
    lemma_tokens_spaced_word(k);
    lemma_tokens_moves(ms);
    lemma_moves_end_token(ms);
    lemma_tokens_concat(seq![' '] + k, render_moves(ms));
    assert((seq![' '] + k + render_moves(ms))[0] == ' ');
}

/// Moves as `shakmaty` writes them are words.
proof fn lemma_moves_are_words(ms: Seq<Seq<char>>)
    requires
        all_move_texts(ms),
    ensures
        forall|i: int| 0 <= i < ms.len() ==> is_word(#[trigger] ms[i]),
{
    assert forall|i: int| 0 <= i < ms.len() implies is_word(#[trigger] ms[i]) by {
        lemma_move_no_line_break(ms[i]);
    }
}

/// Two texts that are each empty or start with a separator: their tokens joined.
proof fn lemma_tokens_join(a: Seq<char>, b: Seq<char>)
    requires
        ends_token(a),
        ends_token(b),
    ensures
        tokens(a + b) == tokens(a) + tokens(b),
        ends_token(a + b),
{
    lemma_tokens_concat(a, b);
    lemma_ends_token_concat(a, b);
}

/// A `go` command is written as its keyword and then, in the order of the protocol, the
/// keyword of each argument that is given with its value: `searchmoves` and the moves,
/// `ponder`, `wtime`, `btime`, `winc`, `binc`, `movestogo`, `depth`, `nodes`, `mate` and
/// `movetime` with their numbers, and `infinite`.
pub proof fn law_go_words(g: SpecGo)
    requires
        g.searchmoves matches Some(ms) ==> all_move_texts(ms),
    ensures
        tokens(render_in(SpecUciIn::Go(g))) == go_words_of(g),
{
    let p0 = (match g.searchmoves { Some(ms) => " searchmoves"@ + render_moves(ms), None => seq![] });
    let w0 = (match g.searchmoves { Some(ms) => seq!["searchmoves"@] + ms, None => seq![] });
    assert(tokens(p0) == w0 && ends_token(p0)) by {
        reveal_strlit("searchmoves");
        reveal_strlit(" searchmoves");
        assert(" searchmoves"@ =~= seq![' '] + "searchmoves"@);
        if let Some(ms) = g.searchmoves {
            lemma_moves_are_words(ms);
            lemma_tokens_keyed_moves("searchmoves"@, ms);
        } else {
            lemma_tokens_blank(p0);
        }
    }
    let p1 = render_flag(" ponder"@, g.ponder);
    let w1 = flagged("ponder"@, g.ponder);
    assert(tokens(p1) == w1 && ends_token(p1)) by {
        reveal_strlit("ponder");
        reveal_strlit(" ponder");
        assert(" ponder"@ =~= seq![' '] + "ponder"@);
        lemma_tokens_flagged(" ponder"@, "ponder"@, g.ponder);
    }
    let p2 = render_number(" wtime "@, nat_of_u64(g.wtime));
    let w2 = numbered("wtime"@, nat_of_u64(g.wtime));
    assert(tokens(p2) == w2 && ends_token(p2)) by {
        reveal_strlit("wtime");
        reveal_strlit(" wtime ");
        assert(" wtime "@ =~= seq![' '] + "wtime"@ + seq![' ']);
        lemma_tokens_numbered(" wtime "@, "wtime"@, nat_of_u64(g.wtime));
    }
    let p3 = render_number(" btime "@, nat_of_u64(g.btime));
    let w3 = numbered("btime"@, nat_of_u64(g.btime));
    assert(tokens(p3) == w3 && ends_token(p3)) by {
        reveal_strlit("btime");
        reveal_strlit(" btime ");
        assert(" btime "@ =~= seq![' '] + "btime"@ + seq![' ']);
        lemma_tokens_numbered(" btime "@, "btime"@, nat_of_u64(g.btime));
    }
    let p4 = render_number(" winc "@, nat_of_u64(g.winc));
    let w4 = numbered("winc"@, nat_of_u64(g.winc));
    assert(tokens(p4) == w4 && ends_token(p4)) by {
        reveal_strlit("winc");
        reveal_strlit(" winc ");
        assert(" winc "@ =~= seq![' '] + "winc"@ + seq![' ']);
        lemma_tokens_numbered(" winc "@, "winc"@, nat_of_u64(g.winc));
    }
    let p5 = render_number(" binc "@, nat_of_u64(g.binc));
    let w5 = numbered("binc"@, nat_of_u64(g.binc));
    assert(tokens(p5) == w5 && ends_token(p5)) by {
        reveal_strlit("binc");
        reveal_strlit(" binc ");
        assert(" binc "@ =~= seq![' '] + "binc"@ + seq![' ']);
        lemma_tokens_numbered(" binc "@, "binc"@, nat_of_u64(g.binc));
    }
    let p6 = render_number(" movestogo "@, nat_of_u32(g.movestogo));
    let w6 = numbered("movestogo"@, nat_of_u32(g.movestogo));
    assert(tokens(p6) == w6 && ends_token(p6)) by {
        reveal_strlit("movestogo");
        reveal_strlit(" movestogo ");
        assert(" movestogo "@ =~= seq![' '] + "movestogo"@ + seq![' ']);
        lemma_tokens_numbered(" movestogo "@, "movestogo"@, nat_of_u32(g.movestogo));
    }
    let p7 = render_number(" depth "@, nat_of_u32(g.depth));
    let w7 = numbered("depth"@, nat_of_u32(g.depth));
    assert(tokens(p7) == w7 && ends_token(p7)) by {
        reveal_strlit("depth");
        reveal_strlit(" depth ");
        assert(" depth "@ =~= seq![' '] + "depth"@ + seq![' ']);
        lemma_tokens_numbered(" depth "@, "depth"@, nat_of_u32(g.depth));
    }
    let p8 = render_number(" nodes "@, nat_of_u64(g.nodes));
    let w8 = numbered("nodes"@, nat_of_u64(g.nodes));
    assert(tokens(p8) == w8 && ends_token(p8)) by {
        reveal_strlit("nodes");
        reveal_strlit(" nodes ");
        assert(" nodes "@ =~= seq![' '] + "nodes"@ + seq![' ']);
        lemma_tokens_numbered(" nodes "@, "nodes"@, nat_of_u64(g.nodes));
    }
    let p9 = render_number(" mate "@, nat_of_u32(g.mate));
    let w9 = numbered("mate"@, nat_of_u32(g.mate));
    assert(tokens(p9) == w9 && ends_token(p9)) by {
        reveal_strlit("mate");
        reveal_strlit(" mate ");
        assert(" mate "@ =~= seq![' '] + "mate"@ + seq![' ']);
        lemma_tokens_numbered(" mate "@, "mate"@, nat_of_u32(g.mate));
    }
    let p10 = render_number(" movetime "@, nat_of_u64(g.movetime));
    let w10 = numbered("movetime"@, nat_of_u64(g.movetime));
    assert(tokens(p10) == w10 && ends_token(p10)) by {
        reveal_strlit("movetime");
        reveal_strlit(" movetime ");
        assert(" movetime "@ =~= seq![' '] + "movetime"@ + seq![' ']);
        lemma_tokens_numbered(" movetime "@, "movetime"@, nat_of_u64(g.movetime));
    }
    let p11 = render_flag(" infinite"@, g.infinite);
    let w11 = flagged("infinite"@, g.infinite);
    assert(tokens(p11) == w11 && ends_token(p11)) by {
        reveal_strlit("infinite");
        reveal_strlit(" infinite");
        assert(" infinite"@ =~= seq![' '] + "infinite"@);
        lemma_tokens_flagged(" infinite"@, "infinite"@, g.infinite);
    }
    let r12 = Seq::<char>::empty();
    lemma_tokens_blank(r12);
    let v12 = Seq::<Seq<char>>::empty();
    lemma_tokens_join(p11, r12);
    let r11 = p11 + r12;
    let v11 = w11 + v12;
    lemma_tokens_join(p10, r11);
    let r10 = p10 + r11;
    let v10 = w10 + v11;
    lemma_tokens_join(p9, r10);
    let r9 = p9 + r10;
    let v9 = w9 + v10;
    lemma_tokens_join(p8, r9);
    let r8 = p8 + r9;
    let v8 = w8 + v9;
    lemma_tokens_join(p7, r8);
    let r7 = p7 + r8;
    let v7 = w7 + v8;
    lemma_tokens_join(p6, r7);
    let r6 = p6 + r7;
    let v6 = w6 + v7;
    lemma_tokens_join(p5, r6);
    let r5 = p5 + r6;
    let v5 = w5 + v6;
    lemma_tokens_join(p4, r5);
    let r4 = p4 + r5;
    let v4 = w4 + v5;
    lemma_tokens_join(p3, r4);
    let r3 = p3 + r4;
    let v3 = w3 + v4;
    lemma_tokens_join(p2, r3);
    let r2 = p2 + r3;
    let v2 = w2 + v3;
    lemma_tokens_join(p1, r2);
    let r1 = p1 + r2;
    let v1 = w1 + v2;
    lemma_tokens_join(p0, r1);
    let r0 = p0 + r1;
    let v0 = w0 + v1;
    assert(go_pieces(g) == r0);
    lemma_render_go_split(g);
    assert(tokens("go"@) == seq!["go"@]) by {
        reveal_strlit("go");
        let e = Seq::<char>::empty();
        lemma_read_word(e, "go"@, e);
        assert(e + "go"@ + e =~= "go"@);
        lemma_tokens_blank(e);
        assert(seq!["go"@] + Seq::<Seq<char>>::empty() =~= seq!["go"@]);
    }
    lemma_tokens_concat("go"@, r0);
    assert(go_words_of(g) == seq!["go"@] + v0);
}

/// The words of a written score: `cp` or `mate`, the number, and the bounds that hold.
pub open spec fn score_words(s: Score) -> Seq<Seq<char>> {
    (match s.eval {
        Eval::Cp(v) => seq!["cp"@, signed_decimal(v as int)],
        Eval::Mate(v) => seq!["mate"@, signed_decimal(v as int)],
    }) + (flagged("lowerbound"@, s.lowerbound) + flagged("upperbound"@, s.upperbound))
}

/// The words of refutation lines: for each, `refutation`, the refuted move and the moves.
pub open spec fn refutation_words(ls: Seq<(Seq<char>, Seq<Seq<char>>)>) -> Seq<Seq<char>>
    decreases ls.len(),
{
    if ls.len() == 0 {
        seq![]
    } else {
        refutation_words(ls.drop_last()) + (seq!["refutation"@, ls.last().0] + ls.last().1)
    }
}

/// The words of current lines: for each, `currline`, the processor number and the moves.
pub open spec fn currline_words(ls: Seq<(u32, Seq<Seq<char>>)>) -> Seq<Seq<char>>
    decreases ls.len(),
{
    if ls.len() == 0 {
        seq![]
    } else {
        currline_words(ls.drop_last()) + (seq!["currline"@, decimal(ls.last().0 as nat)]
            + ls.last().1)
    }
}

/// The words of an `info` answer with the fields `i` and its current lines in the order
/// `lines`, in the order of the protocol.
pub open spec fn info_words_of(i: SpecInfo, lines: Seq<(u32, Seq<Seq<char>>)>) -> Seq<Seq<char>> {
    seq!["info"@] + info_field_words(i, lines)
}

/// A space before text does not change its tokens.
proof fn lemma_tokens_after_space(t: Seq<char>)
    ensures
        tokens(seq![' '] + t) == tokens(t),
{
    let s = seq![' '] + t;
    assert(s.drop_first() =~= t);
    assert(crate::tokens::leading_separators(s) == 1 + crate::tokens::leading_separators(t));
    crate::tokens::lemma_leading_separators(t);
    let l = crate::tokens::leading_separators(t) as int;
    assert(s.skip(1 + l) =~= t.skip(l));
    assert(trim_separators(s) =~= trim_separators(t));
    assert(spec_read(s) == spec_read(t));
}

/// A written score: its words.
proof fn lemma_tokens_score(s: Score)
    ensures
        tokens(" score "@ + render_score(s)) == seq!["score"@] + score_words(s),
        ends_token(" score "@ + render_score(s)),
{
    reveal_strlit(" score ");
    reveal_strlit("score");
    reveal_strlit("cp ");
    reveal_strlit("cp");
    reveal_strlit("mate ");
    reveal_strlit("mate");
    reveal_strlit(" lowerbound");
    reveal_strlit("lowerbound");
    reveal_strlit(" upperbound");
    reveal_strlit("upperbound");
    let (k, v) = match s.eval {
        Eval::Cp(v) => ("cp"@, v as int),
        Eval::Mate(v) => ("mate"@, v as int),
    };
    let d = signed_decimal(v);
    lemma_signed_decimal_is_word(v);
    assert(crate::render::render_eval(s.eval) =~= k + seq![' '] + d);
    let lo = render_flag(" lowerbound"@, s.lowerbound);
    let up = render_flag(" upperbound"@, s.upperbound);
    assert(" lowerbound"@ =~= seq![' '] + "lowerbound"@);
    assert(" upperbound"@ =~= seq![' '] + "upperbound"@);
    lemma_tokens_flagged(" lowerbound"@, "lowerbound"@, s.lowerbound);
    lemma_tokens_flagged(" upperbound"@, "upperbound"@, s.upperbound);
    lemma_tokens_join(lo, up);
    lemma_tokens_keyed("score"@, k);
    lemma_tokens_spaced_word(d);
    lemma_label_ends_token(seq![' '], d);
    lemma_tokens_join(seq![' '] + "score"@ + seq![' '] + k, seq![' '] + d);
    assert((seq![' '] + "score"@ + seq![' '] + k)[0] == ' ');
    let head = seq![' '] + "score"@ + seq![' '] + k + (seq![' '] + d);
    lemma_label_ends_token(seq![' '], "score"@ + seq![' '] + k + (seq![' '] + d));
    assert(seq![' '] + ("score"@ + seq![' '] + k + (seq![' '] + d)) =~= head);
    lemma_tokens_join(head, lo + up);
    assert(" score "@ + render_score(s) =~= head + (lo + up));
    assert(seq!["score"@, k] + seq![d] =~= seq!["score"@] + seq![k, d]);
    assert(seq!["score"@] + score_words(s) =~= seq!["score"@, k] + seq![d] + (flagged(
        "lowerbound"@,
        s.lowerbound,
    ) + flagged("upperbound"@, s.upperbound)));
}

/// Written refutation lines: their words.
proof fn lemma_tokens_refutations(ls: Seq<(Seq<char>, Seq<Seq<char>>)>)
    requires
        forall|j: int| 0 <= j < ls.len() ==> is_move_text(#[trigger] ls[j].0),
        lines_of_moves(ls),
    ensures
        tokens(render_refutations(ls)) == refutation_words(ls),
    decreases ls.len(),
{
    reveal_strlit(" refutation ");
    reveal_strlit("refutation");
    if ls.len() == 0 {
        lemma_tokens_blank(render_refutations(ls));
    } else {
        let init = ls.drop_last();
        assert forall|j: int| 0 <= j < init.len() implies is_move_text(#[trigger] init[j].0) by {
            assert(init[j] == ls[j]);
        }
        assert forall|j: int| 0 <= j < init.len() implies all_move_texts(#[trigger] init[j].1) by {
            assert(init[j] == ls[j]);
        }
        lemma_tokens_refutations(init);
        lemma_refutations_end_token(init);
        let k = ls.last().0;
        let ms = ls.last().1;
        assert(is_move_text(ls[ls.len() - 1].0));
        assert(all_move_texts(ls[ls.len() - 1].1));
        lemma_move_no_line_break(k);
        lemma_moves_are_words(ms);
        lemma_tokens_keyed("refutation"@, k);
        lemma_tokens_moves(ms);
        lemma_moves_end_token(ms);
        lemma_tokens_concat(seq![' '] + "refutation"@ + seq![' '] + k, render_moves(ms));
        let x = seq![' '] + "refutation"@ + seq![' '] + k + render_moves(ms);
        assert(x =~= " refutation "@ + k + render_moves(ms));
        assert(x[0] == ' ');
        lemma_tokens_concat(render_refutations(init), x);
        assert(render_refutations(ls) =~= render_refutations(init) + x);
    }
}

/// Written current lines: their words.
proof fn lemma_tokens_currlines(ls: Seq<(u32, Seq<Seq<char>>)>)
    requires
        lines_of_moves(ls),
    ensures
        tokens(render_currlines(ls)) == currline_words(ls),
    decreases ls.len(),
{
    reveal_strlit(" currline ");
    reveal_strlit("currline");
    if ls.len() == 0 {
        lemma_tokens_blank(render_currlines(ls));
    } else {
        let init = ls.drop_last();
        assert forall|j: int| 0 <= j < init.len() implies all_move_texts(#[trigger] init[j].1) by {
            assert(init[j] == ls[j]);
        }
        lemma_tokens_currlines(init);
        lemma_currlines_end_token(init);
        let d = decimal(ls.last().0 as nat);
        let ms = ls.last().1;
        assert(all_move_texts(ls[ls.len() - 1].1));
        lemma_decimal_is_word(ls.last().0 as nat);
        lemma_moves_are_words(ms);
        lemma_tokens_keyed("currline"@, d);
        lemma_tokens_moves(ms);
        lemma_moves_end_token(ms);
        lemma_tokens_concat(seq![' '] + "currline"@ + seq![' '] + d, render_moves(ms));
        let x = seq![' '] + "currline"@ + seq![' '] + d + render_moves(ms);
        assert(x =~= " currline "@ + d + render_moves(ms));
        assert(x[0] == ' ');
        lemma_tokens_concat(render_currlines(init), x);
        assert(render_currlines(ls) =~= render_currlines(init) + x);
    }
}

/// The words of the written fields of an `info` answer, in the order of the protocol.
pub open spec fn info_field_words(i: SpecInfo, lines: Seq<(u32, Seq<Seq<char>>)>) -> Seq<Seq<char>> {
    (numbered("multipv"@, nat_of_u32(i.multipv)) + (numbered("depth"@, nat_of_u32(i.depth)) + (numbered("seldepth"@, nat_of_u32(i.seldepth)) + (numbered("time"@, nat_of_u64(i.time)) + (numbered("nodes"@, nat_of_u64(i.nodes)) + ((match i.pv { Some(ms) => seq!["pv"@] + ms, None => seq![] }) + ((match i.score { Some(s) => seq!["score"@] + score_words(s), None => seq![] }) + ((match i.currmove { Some(m) => seq!["currmove"@, m], None => seq![] }) + (numbered("currmovenumber"@, nat_of_u32(i.currmovenumber)) + (numbered("hashfull"@, nat_of_u32(i.hashfull)) + (numbered("nps"@, nat_of_u64(i.nps)) + (numbered("tbhits"@, nat_of_u64(i.tbhits)) + (numbered("sbhits"@, nat_of_u64(i.sbhits)) + (numbered("cpuload"@, nat_of_u32(i.cpuload)) + (refutation_words(i.refutation) + (currline_words(lines) + ((match i.string { Some(t) => seq!["string"@] + tokens(t), None => seq![] }) + Seq::<Seq<char>>::empty())))))))))))))))))
}

/// The written fields of an `info` answer are their words.
#[verifier::rlimit(100)]
proof fn lemma_info_pieces_words(i: SpecInfo, lines: Seq<(u32, Seq<Seq<char>>)>)
    requires
        i.pv matches Some(ms) ==> all_move_texts(ms),
        i.currmove matches Some(m) ==> is_move_text(m),
        forall|j: int| 0 <= j < i.refutation.len() ==> is_move_text(#[trigger] i.refutation[j].0),
        lines_of_moves(i.refutation),
        lines_of_moves(lines),
    ensures
        tokens(info_pieces(i, lines)) == info_field_words(i, lines),
{
    let p0 = render_number(" multipv "@, nat_of_u32(i.multipv));
    let w0 = numbered("multipv"@, nat_of_u32(i.multipv));
    assert(tokens(p0) == w0 && ends_token(p0)) by {
        reveal_strlit("multipv");
        reveal_strlit(" multipv ");
        assert(" multipv "@ =~= seq![' '] + "multipv"@ + seq![' ']);
        lemma_tokens_numbered(" multipv "@, "multipv"@, nat_of_u32(i.multipv));
    }
    let p1 = render_number(" depth "@, nat_of_u32(i.depth));
    let w1 = numbered("depth"@, nat_of_u32(i.depth));
    assert(tokens(p1) == w1 && ends_token(p1)) by {
        reveal_strlit("depth");
        reveal_strlit(" depth ");
        assert(" depth "@ =~= seq![' '] + "depth"@ + seq![' ']);
        lemma_tokens_numbered(" depth "@, "depth"@, nat_of_u32(i.depth));
    }
    let p2 = render_number(" seldepth "@, nat_of_u32(i.seldepth));
    let w2 = numbered("seldepth"@, nat_of_u32(i.seldepth));
    assert(tokens(p2) == w2 && ends_token(p2)) by {
        reveal_strlit("seldepth");
        reveal_strlit(" seldepth ");
        assert(" seldepth "@ =~= seq![' '] + "seldepth"@ + seq![' ']);
        lemma_tokens_numbered(" seldepth "@, "seldepth"@, nat_of_u32(i.seldepth));
    }
    let p3 = render_number(" time "@, nat_of_u64(i.time));
    let w3 = numbered("time"@, nat_of_u64(i.time));
    assert(tokens(p3) == w3 && ends_token(p3)) by {
        reveal_strlit("time");
        reveal_strlit(" time ");
        assert(" time "@ =~= seq![' '] + "time"@ + seq![' ']);
        lemma_tokens_numbered(" time "@, "time"@, nat_of_u64(i.time));
    }
    let p4 = render_number(" nodes "@, nat_of_u64(i.nodes));
    let w4 = numbered("nodes"@, nat_of_u64(i.nodes));
    assert(tokens(p4) == w4 && ends_token(p4)) by {
        reveal_strlit("nodes");
        reveal_strlit(" nodes ");
        assert(" nodes "@ =~= seq![' '] + "nodes"@ + seq![' ']);
        lemma_tokens_numbered(" nodes "@, "nodes"@, nat_of_u64(i.nodes));
    }
    let p5 = (match i.pv { Some(ms) => " pv"@ + render_moves(ms), None => seq![] });
    let w5 = (match i.pv { Some(ms) => seq!["pv"@] + ms, None => seq![] });
    assert(tokens(p5) == w5 && ends_token(p5)) by {
        reveal_strlit("pv");
        reveal_strlit(" pv");
        assert(" pv"@ =~= seq![' '] + "pv"@);
        if let Some(ms) = i.pv {
            lemma_moves_are_words(ms);
            lemma_tokens_keyed_moves("pv"@, ms);
        } else {
            lemma_tokens_blank(p5);
        }
    }
    let p6 = (match i.score { Some(s) => " score "@ + render_score(s), None => seq![] });
    let w6 = (match i.score { Some(s) => seq!["score"@] + score_words(s), None => seq![] });
    assert(tokens(p6) == w6 && ends_token(p6)) by {
        if let Some(s) = i.score {
            lemma_tokens_score(s);
        } else {
            lemma_tokens_blank(p6);
        }
    }
    let p7 = render_text(" currmove "@, i.currmove);
    let w7 = (match i.currmove { Some(m) => seq!["currmove"@, m], None => seq![] });
    assert(tokens(p7) == w7 && ends_token(p7)) by {
        reveal_strlit("currmove");
        reveal_strlit(" currmove ");
        if let Some(m) = i.currmove {
            lemma_move_no_line_break(m);
            lemma_tokens_keyed("currmove"@, m);
            assert(p7 =~= seq![' '] + "currmove"@ + seq![' '] + m);
            assert(p7[0] == ' ');
        } else {
            lemma_tokens_blank(p7);
        }
    }
    let p8 = render_number(" currmovenumber "@, nat_of_u32(i.currmovenumber));
    let w8 = numbered("currmovenumber"@, nat_of_u32(i.currmovenumber));
    assert(tokens(p8) == w8 && ends_token(p8)) by {
        reveal_strlit("currmovenumber");
        reveal_strlit(" currmovenumber ");
        assert(" currmovenumber "@ =~= seq![' '] + "currmovenumber"@ + seq![' ']);
        lemma_tokens_numbered(" currmovenumber "@, "currmovenumber"@, nat_of_u32(i.currmovenumber));
    }
    let p9 = render_number(" hashfull "@, nat_of_u32(i.hashfull));
    let w9 = numbered("hashfull"@, nat_of_u32(i.hashfull));
    assert(tokens(p9) == w9 && ends_token(p9)) by {
        reveal_strlit("hashfull");
        reveal_strlit(" hashfull ");
        assert(" hashfull "@ =~= seq![' '] + "hashfull"@ + seq![' ']);
        lemma_tokens_numbered(" hashfull "@, "hashfull"@, nat_of_u32(i.hashfull));
    }
    let p10 = render_number(" nps "@, nat_of_u64(i.nps));
    let w10 = numbered("nps"@, nat_of_u64(i.nps));
    assert(tokens(p10) == w10 && ends_token(p10)) by {
        reveal_strlit("nps");
        reveal_strlit(" nps ");
        assert(" nps "@ =~= seq![' '] + "nps"@ + seq![' ']);
        lemma_tokens_numbered(" nps "@, "nps"@, nat_of_u64(i.nps));
    }
    let p11 = render_number(" tbhits "@, nat_of_u64(i.tbhits));
    let w11 = numbered("tbhits"@, nat_of_u64(i.tbhits));
    assert(tokens(p11) == w11 && ends_token(p11)) by {
        reveal_strlit("tbhits");
        reveal_strlit(" tbhits ");
        assert(" tbhits "@ =~= seq![' '] + "tbhits"@ + seq![' ']);
        lemma_tokens_numbered(" tbhits "@, "tbhits"@, nat_of_u64(i.tbhits));
    }
    let p12 = render_number(" sbhits "@, nat_of_u64(i.sbhits));
    let w12 = numbered("sbhits"@, nat_of_u64(i.sbhits));
    assert(tokens(p12) == w12 && ends_token(p12)) by {
        reveal_strlit("sbhits");
        reveal_strlit(" sbhits ");
        assert(" sbhits "@ =~= seq![' '] + "sbhits"@ + seq![' ']);
        lemma_tokens_numbered(" sbhits "@, "sbhits"@, nat_of_u64(i.sbhits));
    }
    let p13 = render_number(" cpuload "@, nat_of_u32(i.cpuload));
    let w13 = numbered("cpuload"@, nat_of_u32(i.cpuload));
    assert(tokens(p13) == w13 && ends_token(p13)) by {
        reveal_strlit("cpuload");
        reveal_strlit(" cpuload ");
        assert(" cpuload "@ =~= seq![' '] + "cpuload"@ + seq![' ']);
        lemma_tokens_numbered(" cpuload "@, "cpuload"@, nat_of_u32(i.cpuload));
    }
    let p14 = render_refutations(i.refutation);
    let w14 = refutation_words(i.refutation);
    assert(tokens(p14) == w14 && ends_token(p14)) by {
        lemma_tokens_refutations(i.refutation);
        lemma_refutations_end_token(i.refutation);
    }
    let p15 = render_currlines(lines);
    let w15 = currline_words(lines);
    assert(tokens(p15) == w15 && ends_token(p15)) by {
        lemma_tokens_currlines(lines);
        lemma_currlines_end_token(lines);
    }
    let p16 = render_text(" string "@, i.string);
    let w16 = (match i.string { Some(t) => seq!["string"@] + tokens(t), None => seq![] });
    assert(tokens(p16) == w16 && ends_token(p16)) by {
        reveal_strlit("string");
        reveal_strlit(" string ");
        if let Some(t) = i.string {
            lemma_tokens_spaced_word("string"@);
            lemma_tokens_after_space(t);
            lemma_label_ends_token(seq![' '], t);
            lemma_tokens_concat(seq![' '] + "string"@, seq![' '] + t);
            assert(p16 =~= seq![' '] + "string"@ + (seq![' '] + t));
            assert(p16[0] == ' ');
        } else {
            lemma_tokens_blank(p16);
        }
    }
    let r17 = Seq::<char>::empty();
    lemma_tokens_blank(r17);
    let v17 = Seq::<Seq<char>>::empty();
    lemma_tokens_join(p16, r17);
    let r16 = p16 + r17;
    let v16 = w16 + v17;
    lemma_tokens_join(p15, r16);
    let r15 = p15 + r16;
    let v15 = w15 + v16;
    lemma_tokens_join(p14, r15);
    let r14 = p14 + r15;
    let v14 = w14 + v15;
    lemma_tokens_join(p13, r14);
    let r13 = p13 + r14;
    let v13 = w13 + v14;
    lemma_tokens_join(p12, r13);
    let r12 = p12 + r13;
    let v12 = w12 + v13;
    lemma_tokens_join(p11, r12);
    let r11 = p11 + r12;
    let v11 = w11 + v12;
    lemma_tokens_join(p10, r11);
    let r10 = p10 + r11;
    let v10 = w10 + v11;
    lemma_tokens_join(p9, r10);
    let r9 = p9 + r10;
    let v9 = w9 + v10;
    lemma_tokens_join(p8, r9);
    let r8 = p8 + r9;
    let v8 = w8 + v9;
    lemma_tokens_join(p7, r8);
    let r7 = p7 + r8;
    let v7 = w7 + v8;
    lemma_tokens_join(p6, r7);
    let r6 = p6 + r7;
    let v6 = w6 + v7;
    lemma_tokens_join(p5, r6);
    let r5 = p5 + r6;
    let v5 = w5 + v6;
    lemma_tokens_join(p4, r5);
    let r4 = p4 + r5;
    let v4 = w4 + v5;
    lemma_tokens_join(p3, r4);
    let r3 = p3 + r4;
    let v3 = w3 + v4;
    lemma_tokens_join(p2, r3);
    let r2 = p2 + r3;
    let v2 = w2 + v3;
    lemma_tokens_join(p1, r2);
    let r1 = p1 + r2;
    let v1 = w1 + v2;
    lemma_tokens_join(p0, r1);
    let r0 = p0 + r1;
    let v0 = w0 + v1;
    assert(info_pieces(i, lines) == r0);
}

/// An `info` answer is written as its keyword and then, in the order of the protocol,
/// the keyword of each field that is given with its value: `multipv`, `depth`,
/// `seldepth`, `time` and `nodes` with their numbers, `pv` and the moves, `score` and the
/// score, `currmove` and the move, `currmovenumber`, `hashfull`, `nps`, `tbhits`,
/// `sbhits` and `cpuload` with their numbers, each refutation line as `refutation`, the
/// refuted move and the moves, each current line as `currline`, the processor number and
/// the moves (in the order in which they are written), and `string` and the text.
pub proof fn law_info_words(i: SpecInfo, line: Seq<char>)
    requires
        written_answer(SpecUciOut::Info(i), line),
        i.pv matches Some(ms) ==> all_move_texts(ms),
        i.currmove matches Some(m) ==> is_move_text(m),
        forall|j: int| 0 <= j < i.refutation.len() ==> is_move_text(#[trigger] i.refutation[j].0),
        lines_of_moves(i.refutation),
        forall|k: u32| #[trigger] i.currline.contains_key(k) ==> all_move_texts(i.currline[k]),
    ensures
        exists|lines: Seq<(u32, Seq<Seq<char>>)>|
            lists_lines(lines, i.currline) && tokens(line) == #[trigger] info_words_of(i, lines),
{
    let lines = choose|l: Seq<(u32, Seq<Seq<char>>)>|
        #[trigger] lists_lines(l, answer_lines(SpecUciOut::Info(i))) && line == render_out(
            SpecUciOut::Info(i),
            l,
        );
    lemma_listed_lines_of_moves(lines, i.currline);
    lemma_info_pieces_words(i, lines);
    lemma_info_pieces_end_token(i, lines);
    lemma_render_info_split(i, lines);
    assert(tokens("info"@) == seq!["info"@]) by {
        reveal_strlit("info");
        let e = Seq::<char>::empty();
        lemma_read_word(e, "info"@, e);
        assert(e + "info"@ + e =~= "info"@);
        lemma_tokens_blank(e);
        assert(seq!["info"@] + Seq::<Seq<char>>::empty() =~= seq!["info"@]);
    }
    lemma_tokens_concat("info"@, info_pieces(i, lines));
    assert(info_words_of(i, lines) == seq!["info"@] + info_field_words(i, lines));
}

/// The keyword that starts the line of the command `v`.
pub open spec fn command_word(v: SpecUciIn) -> Seq<char> {
    match v {
        SpecUciIn::Uci => "uci"@,
        SpecUciIn::Isready => "isready"@,
        SpecUciIn::Setoption { .. } => "setoption"@,
        SpecUciIn::Ucinewgame => "ucinewgame"@,
        SpecUciIn::Position { .. } => "position"@,
        SpecUciIn::Go(_) => "go"@,
        SpecUciIn::Stop => "stop"@,
        SpecUciIn::Ponderhit => "ponderhit"@,
    }
}

/// The keyword that starts the line of the answer `v`.
pub open spec fn answer_word(v: SpecUciOut) -> Seq<char> {
    match v {
        SpecUciOut::IdName(_) => "id"@,
        SpecUciOut::IdAuthor(_) => "id"@,
        SpecUciOut::Uciok => "uciok"@,
        SpecUciOut::Readyok => "readyok"@,
        SpecUciOut::Bestmove { .. } => "bestmove"@,
        SpecUciOut::Info(_) => "info"@,
        SpecUciOut::Option { .. } => "option"@,
    }
}

/// Each command is written with the keywords of the protocol: its line starts with the
/// word that names the command (`uci`, `isready`, `setoption`, `ucinewgame`, `position`,
/// `go`, `stop` or `ponderhit`); `setoption` goes on with the word `name`, and `position`
/// with `startpos`, or with `fen` where a position is given.
pub proof fn law_command_words(v: SpecUciIn)
    ensures
        spec_read(render_in(v)).0 == Some(command_word(v)),
        v is Setoption ==> spec_read(spec_read(render_in(v)).1).0 == Some("name"@),
        v matches SpecUciIn::Position { fen: None, .. } ==> spec_read(
            spec_read(render_in(v)).1,
        ).0 == Some("startpos"@),
        v matches SpecUciIn::Position { fen: Some(_), .. } ==> spec_read(
            spec_read(render_in(v)).1,
        ).0 == Some("fen"@),
{
    reveal_strlit("uci");
    reveal_strlit("isready");
    reveal_strlit("setoption");
    reveal_strlit("setoption name ");
    reveal_strlit("name");
    reveal_strlit("ucinewgame");
    reveal_strlit("position");
    reveal_strlit("position startpos");
    reveal_strlit("position fen ");
    reveal_strlit("startpos");
    reveal_strlit("fen");
    reveal_strlit(" moves ");
    reveal_strlit(" value ");
    reveal_strlit("go");
    reveal_strlit("stop");
    reveal_strlit("ponderhit");
    let e = Seq::<char>::empty();
    let line = render_in(v);
    match v {
        SpecUciIn::Setoption { name, value } => {
            let vt = crate::render::render_text(" value "@, value);
            let r1 = seq![' '] + name + vt;
            assert(line =~= e + "setoption"@ + (seq![' '] + "name"@ + r1));
            lemma_label_ends_token(seq![' '], "name"@ + r1);
            assert(seq![' '] + ("name"@ + r1) =~= seq![' '] + "name"@ + r1);
            lemma_read_word(e, "setoption"@, seq![' '] + "name"@ + r1);
            lemma_label_ends_token(seq![' '], name + vt);
            assert(seq![' '] + (name + vt) =~= r1);
            lemma_read_word(seq![' '], "name"@, r1);
        },
        SpecUciIn::Position { fen, moves } => {
            let mt = crate::laws::moves_part(moves);
            assert(ends_token(mt)) by {
                if moves.len() > 0 {
                    lemma_label_ends_token(" moves "@, render_moves(moves));
                }
            }
            let (w, r1) = match fen {
                Some(f) => ("fen"@, seq![' '] + f + mt),
                None => ("startpos"@, mt),
            };
            assert(line =~= e + "position"@ + (seq![' '] + w + r1));
            assert(ends_token(r1)) by {
                if fen is Some {
                    lemma_label_ends_token(seq![' '], fen->0 + mt);
                    assert(seq![' '] + (fen->0 + mt) =~= r1);
                }
            }
            lemma_label_ends_token(seq![' '], w + r1);
            assert(seq![' '] + (w + r1) =~= seq![' '] + w + r1);
            lemma_read_word(e, "position"@, seq![' '] + w + r1);
            lemma_read_word(seq![' '], w, r1);
        },
        SpecUciIn::Go(g) => {
            lemma_render_go_split(g);
            lemma_go_pieces_end_token(g);
            assert(line =~= e + "go"@ + go_pieces(g));
            lemma_read_word(e, "go"@, go_pieces(g));
        },
        _ => {
            let w = command_word(v);
            assert(line =~= e + w + e);
            lemma_read_word(e, w, e);
        },
    }
}

/// The words `ws`, each after a space.
pub open spec fn spaced(ws: Seq<Seq<char>>) -> Seq<char>
    decreases ws.len(),
{
    if ws.len() == 0 {
        seq![]
    } else {
        seq![' '] + ws[0] + spaced(ws.drop_first())
    }
}

/// Words, each after a space, are those words as tokens.
proof fn lemma_tokens_spaced(ws: Seq<Seq<char>>)
    requires
        forall|i: int| 0 <= i < ws.len() ==> is_word(#[trigger] ws[i]),
    ensures
        tokens(spaced(ws)) == ws,
        ends_token(spaced(ws)),
    decreases ws.len(),
{
    if ws.len() == 0 {
        lemma_tokens_blank(spaced(ws));
        assert(ws =~= Seq::<Seq<char>>::empty());
    } else {
        let rest = ws.drop_first();
        assert forall|i: int| 0 <= i < rest.len() implies is_word(#[trigger] rest[i]) by {
            assert(rest[i] == ws[i + 1]);
        }
        lemma_tokens_spaced(rest);
        assert(is_word(ws[0]));
        lemma_tokens_spaced_word(ws[0]);
        lemma_label_ends_token(seq![' '], ws[0]);
        lemma_tokens_concat(seq![' '] + ws[0], spaced(rest));
        assert(seq![ws[0]] + rest =~= ws);
    }
}

/// A word and then text that is empty or starts with a separator: that word, then the
/// tokens of the text.
proof fn lemma_tokens_word_first(w: Seq<char>, r: Seq<char>)
    requires
        is_word(w),
        ends_token(r),
    ensures
        tokens(w + r) == seq![w] + tokens(r),
{
    let e = Seq::<char>::empty();
    lemma_read_word(e, w, r);
    assert(e + w + r =~= w + r);
}

/// A space, text, and then text that is empty or starts with a separator: the tokens of
/// both.
proof fn lemma_tokens_spaced_text(t: Seq<char>, r: Seq<char>)
    requires
        ends_token(r),
    ensures
        tokens(seq![' '] + t + r) == tokens(t) + tokens(r),
        ends_token(seq![' '] + t + r),
{
    lemma_tokens_concat(t, r);
    lemma_tokens_after_space(t + r);
    assert(seq![' '] + t + r =~= seq![' '] + (t + r));
}

/// The words of the command `v`, as the protocol writes them.
pub open spec fn command_tokens(v: SpecUciIn) -> Seq<Seq<char>> {
    match v {
        SpecUciIn::Uci => seq!["uci"@],
        SpecUciIn::Isready => seq!["isready"@],
        SpecUciIn::Setoption { name, value } => seq!["setoption"@, "name"@] + tokens(name) + (
        match value {
            Some(x) => seq!["value"@] + tokens(x),
            None => seq![],
        }),
        SpecUciIn::Ucinewgame => seq!["ucinewgame"@],
        SpecUciIn::Position { fen, moves } => seq!["position"@] + (match fen {
            Some(f) => seq!["fen"@] + tokens(f),
            None => seq!["startpos"@],
        }) + (if moves.len() > 0 {
            seq!["moves"@] + moves
        } else {
            seq![]
        }),
        SpecUciIn::Go(g) => go_words_of(g),
        SpecUciIn::Stop => seq!["stop"@],
        SpecUciIn::Ponderhit => seq!["ponderhit"@],
    }
}

/// Each command is written word by word as the protocol has it: the keyword of the
/// command, then `name`, the name, and `value` and the value for `setoption`; `startpos`,
/// or `fen` and the position, then `moves` and every move where there are any, for
/// `position`, whether a position is given or not; and the arguments of `go` (see
/// `law_go_words`).
pub proof fn law_command_tokens(v: SpecUciIn)
    requires
        v matches SpecUciIn::Position { moves, .. } ==> all_move_texts(moves),
        v matches SpecUciIn::Go(g) ==> (g.searchmoves matches Some(ms) ==> all_move_texts(ms)),
    ensures
        tokens(render_in(v)) == command_tokens(v),
{
    reveal_strlit("uci");
    reveal_strlit("isready");
    reveal_strlit("setoption");
    reveal_strlit("setoption name ");
    reveal_strlit("name");
    reveal_strlit(" value ");
    reveal_strlit("value");
    reveal_strlit("ucinewgame");
    reveal_strlit("position");
    reveal_strlit("position startpos");
    reveal_strlit("position fen ");
    reveal_strlit("startpos");
    reveal_strlit("fen");
    reveal_strlit(" moves ");
    reveal_strlit("moves");
    reveal_strlit("stop");
    reveal_strlit("ponderhit");
    reveal_with_fuel(spaced, 2);
    let e = Seq::<char>::empty();
    let line = render_in(v);
    match v {
        SpecUciIn::Setoption { name, value } => {
            let vt = crate::render::render_text(" value "@, value);
            let vw = match value {
                Some(x) => seq!["value"@] + tokens(x),
                None => Seq::<Seq<char>>::empty(),
            };
            assert(tokens(vt) == vw && ends_token(vt)) by {
                if let Some(x) = value {
                    lemma_tokens_blank(e);
                    lemma_tokens_spaced(seq!["value"@]);
                    lemma_tokens_spaced_text(x, e);
                    assert(seq![' '] + x + e =~= seq![' '] + x);
                    lemma_label_ends_token(seq![' '], x);
                    lemma_tokens_concat(spaced(seq!["value"@]), seq![' '] + x);
                    assert(vt =~= spaced(seq!["value"@]) + (seq![' '] + x));
                    assert(tokens(x) + Seq::<Seq<char>>::empty() =~= tokens(x));
                    assert(vt[0] == ' ');
                } else {
                    lemma_tokens_blank(vt);
                }
            }
            lemma_tokens_spaced_text(name, vt);
            let r = seq![' '] + name + vt;
            lemma_tokens_spaced(seq!["name"@]);
            lemma_tokens_concat(spaced(seq!["name"@]), r);
            lemma_ends_token_concat(spaced(seq!["name"@]), r);
            lemma_tokens_word_first("setoption"@, spaced(seq!["name"@]) + r);
            assert(line =~= "setoption"@ + (spaced(seq!["name"@]) + r));
            assert(command_tokens(v) =~= seq!["setoption"@] + (seq!["name"@] + (tokens(name)
                + vw)));
        },
        SpecUciIn::Position { fen, moves } => {
            let mt = crate::laws::moves_part(moves);
            let mw = if moves.len() > 0 {
                seq!["moves"@] + moves
            } else {
                Seq::<Seq<char>>::empty()
            };
            assert(tokens(mt) == mw && ends_token(mt)) by {
                if moves.len() > 0 {
                    lemma_moves_are_words(moves);
                    lemma_tokens_moves(moves);
                    lemma_moves_end_token(moves);
                    lemma_tokens_spaced_text(render_moves(moves), e);
                    assert(seq![' '] + render_moves(moves) + e =~= seq![' '] + render_moves(moves));
                    lemma_tokens_blank(e);
                    assert(moves + Seq::<Seq<char>>::empty() =~= moves);
                    lemma_tokens_spaced(seq!["moves"@]);
                    lemma_label_ends_token(seq![' '], render_moves(moves));
                    lemma_tokens_concat(spaced(seq!["moves"@]), seq![' '] + render_moves(moves));
                    assert(mt =~= spaced(seq!["moves"@]) + (seq![' '] + render_moves(moves)));
                    assert(mt[0] == ' ');
                } else {
                    lemma_tokens_blank(mt);
                }
            }
            let (head, hw) = match fen {
                Some(f) => (spaced(seq!["fen"@]) + (seq![' '] + f + mt), seq!["fen"@] + tokens(f)
                    + mw),
                None => (spaced(seq!["startpos"@]) + mt, seq!["startpos"@] + mw),
            };
            assert(tokens(head) == hw && ends_token(head)) by {
                match fen {
                    Some(f) => {
                        lemma_tokens_spaced(seq!["fen"@]);
                        lemma_tokens_spaced_text(f, mt);
                        lemma_tokens_concat(spaced(seq!["fen"@]), seq![' '] + f + mt);
                        lemma_ends_token_concat(spaced(seq!["fen"@]), seq![' '] + f + mt);
                        assert(seq!["fen"@] + (tokens(f) + mw) =~= hw);
                    },
                    None => {
                        lemma_tokens_spaced(seq!["startpos"@]);
                        lemma_tokens_concat(spaced(seq!["startpos"@]), mt);
                        lemma_ends_token_concat(spaced(seq!["startpos"@]), mt);
                    },
                }
            }
            lemma_tokens_word_first("position"@, head);
            assert(line =~= "position"@ + head);
            assert(command_tokens(v) =~= seq!["position"@] + hw);
        },
        SpecUciIn::Go(g) => {
            law_go_words(g);
        },
        _ => {
            let w = command_word(v);
            lemma_tokens_blank(e);
            lemma_tokens_word_first(w, e);
            assert(line =~= w + e);
            assert(seq![w] + Seq::<Seq<char>>::empty() =~= command_tokens(v));
        },
    }
}

/// Each answer is written with the keywords of the protocol: its line starts with the
/// word that names the answer (`id`, `uciok`, `readyok`, `bestmove`, `info` or `option`);
/// `id name` and `id author` are followed by a space and the name, `option` goes on with
/// the word `name`, and a `bestmove` without a move with the word `(none)`.
pub proof fn law_answer_words(v: SpecUciOut, line: Seq<char>)
    requires
        written_answer(v, line),
    ensures
        spec_read(line).0 == Some(answer_word(v)),
        v matches SpecUciOut::IdName(n) ==> spec_read(spec_read(line).1) == (
            Some("name"@),
            seq![' '] + n,
        ),
        v matches SpecUciOut::IdAuthor(a) ==> spec_read(spec_read(line).1) == (
            Some("author"@),
            seq![' '] + a,
        ),
        v is Option ==> spec_read(spec_read(line).1).0 == Some("name"@),
        v matches SpecUciOut::Bestmove { m: None, .. } ==> spec_read(spec_read(line).1).0 == Some(
            "(none)"@,
        ),
{
    reveal_strlit("id");
    reveal_strlit("id name ");
    reveal_strlit("id author ");
    reveal_strlit("name");
    reveal_strlit("author");
    reveal_strlit("uciok");
    reveal_strlit("readyok");
    reveal_strlit("bestmove");
    reveal_strlit("bestmove ");
    reveal_strlit("bestmove (none)");
    reveal_strlit("(none)");
    reveal_strlit(" ponder ");
    reveal_strlit("info");
    reveal_strlit("option");
    reveal_strlit("option name ");
    reveal_strlit(" ");
    let lines = choose|l: Seq<(u32, Seq<Seq<char>>)>|
        #[trigger] lists_lines(l, answer_lines(v)) && line == render_out(v, l);
    let e = Seq::<char>::empty();
    match v {
        SpecUciOut::IdName(n) => {
            assert(line =~= e + "id"@ + (seq![' '] + "name"@ + (seq![' '] + n)));
            lemma_label_ends_token(seq![' '], "name"@ + (seq![' '] + n));
            assert(seq![' '] + ("name"@ + (seq![' '] + n)) =~= seq![' '] + "name"@ + (seq![' '] + n));
            lemma_read_word(e, "id"@, seq![' '] + "name"@ + (seq![' '] + n));
            lemma_label_ends_token(seq![' '], n);
            lemma_read_word(seq![' '], "name"@, seq![' '] + n);
        },
        SpecUciOut::IdAuthor(n) => {
            assert(line =~= e + "id"@ + (seq![' '] + "author"@ + (seq![' '] + n)));
            lemma_label_ends_token(seq![' '], "author"@ + (seq![' '] + n));
            assert(seq![' '] + ("author"@ + (seq![' '] + n)) =~= seq![' '] + "author"@ + (seq![' ']
                + n));
            lemma_read_word(e, "id"@, seq![' '] + "author"@ + (seq![' '] + n));
            lemma_label_ends_token(seq![' '], n);
            lemma_read_word(seq![' '], "author"@, seq![' '] + n);
        },
        SpecUciOut::Bestmove { m, ponder } => {
            let mt = match m {
                Some(x) => x,
                None => "(none)"@,
            };
            let pt = crate::render::render_text(" ponder "@, ponder);
            assert(ends_token(pt)) by {
                if ponder is Some {
                    lemma_label_ends_token(" ponder "@, ponder->0);
                }
            }
            assert(line =~= e + "bestmove"@ + (seq![' '] + mt + pt));
            lemma_label_ends_token(seq![' '], mt + pt);
            assert(seq![' '] + (mt + pt) =~= seq![' '] + mt + pt);
            lemma_read_word(e, "bestmove"@, seq![' '] + mt + pt);
            if m is None {
                lemma_read_word(seq![' '], "(none)"@, pt);
            }
        },
        SpecUciOut::Info(i) => {
            lemma_render_info_split(i, lines);
            lemma_info_pieces_end_token(i, lines);
            assert(line =~= e + "info"@ + info_pieces(i, lines));
            lemma_read_word(e, "info"@, info_pieces(i, lines));
        },
        SpecUciOut::Option { name, option } => {
            let r1 = seq![' '] + name + " "@ + crate::render::render_option(option);
            assert(line =~= e + "option"@ + (seq![' '] + "name"@ + r1));
            lemma_label_ends_token(seq![' '], "name"@ + r1);
            assert(seq![' '] + ("name"@ + r1) =~= seq![' '] + "name"@ + r1);
            lemma_read_word(e, "option"@, seq![' '] + "name"@ + r1);
            lemma_label_ends_token(seq![' '], name + " "@ + crate::render::render_option(option));
            assert(seq![' '] + (name + " "@ + crate::render::render_option(option)) =~= r1);
            lemma_read_word(seq![' '], "name"@, r1);
        },
        _ => {
            let w = answer_word(v);
            assert(line =~= e + w + e);
            lemma_read_word(e, w, e);
        },
    }
}

/// The words of the variants of a `combo` option: for each, `var` and the words of the
/// variant.
pub open spec fn var_words(vs: Seq<Seq<char>>) -> Seq<Seq<char>>
    decreases vs.len(),
{
    if vs.len() == 0 {
        seq![]
    } else {
        var_words(vs.drop_last()) + (seq!["var"@] + tokens(vs.last()))
    }
}

/// The words of an option after the word `type`, as the protocol writes them.
pub open spec fn option_words(o: SpecUciOption) -> Seq<Seq<char>> {
    match o {
        SpecUciOption::Check { default } => seq![
            "check"@,
            "default"@,
            if default {
                "true"@
            } else {
                "false"@
            },
        ],
        SpecUciOption::Spin { default, min, max } => seq![
            "spin"@,
            "default"@,
            signed_decimal(default as int),
            "min"@,
            signed_decimal(min as int),
            "max"@,
            signed_decimal(max as int),
        ],
        SpecUciOption::Combo { default, var } => seq!["combo"@, "default"@] + tokens(default)
            + var_words(var),
        SpecUciOption::Button => seq!["button"@],
        SpecUciOption::String { default } => seq!["string"@, "default"@] + tokens(default),
    }
}

/// The words of the answer `v`, with the current lines of `info` in the order `lines`,
/// as the protocol writes them.
pub open spec fn answer_tokens(v: SpecUciOut, lines: Seq<(u32, Seq<Seq<char>>)>) -> Seq<
    Seq<char>,
> {
    match v {
        SpecUciOut::IdName(n) => seq!["id"@, "name"@] + tokens(n),
        SpecUciOut::IdAuthor(a) => seq!["id"@, "author"@] + tokens(a),
        SpecUciOut::Uciok => seq!["uciok"@],
        SpecUciOut::Readyok => seq!["readyok"@],
        SpecUciOut::Bestmove { m, ponder } => seq![
            "bestmove"@,
            match m {
                Some(x) => x,
                None => "(none)"@,
            },
        ] + match ponder {
            Some(p) => seq!["ponder"@, p],
            None => seq![],
        },
        SpecUciOut::Info(i) => info_words_of(i, lines),
        SpecUciOut::Option { name, option } => seq!["option"@, "name"@] + tokens(name) + (
        seq!["type"@] + option_words(option)),
    }
}

/// Written variants of a `combo` option: their words.
proof fn lemma_tokens_vars(vs: Seq<Seq<char>>)
    ensures
        tokens(render_vars(vs)) == var_words(vs),
        ends_token(render_vars(vs)),
    decreases vs.len(),
{
    reveal_strlit(" var ");
    reveal_strlit("var");
    reveal_with_fuel(spaced, 2);
    if vs.len() == 0 {
        lemma_tokens_blank(render_vars(vs));
    } else {
        let init = vs.drop_last();
        let v = vs.last();
        lemma_tokens_vars(init);
        let e = Seq::<char>::empty();
        lemma_tokens_blank(e);
        lemma_tokens_spaced_text(v, e);
        assert(seq![' '] + v + e =~= seq![' '] + v);
        assert(tokens(v) + Seq::<Seq<char>>::empty() =~= tokens(v));
        lemma_tokens_spaced(seq!["var"@]);
        lemma_label_ends_token(seq![' '], v);
        lemma_tokens_concat(spaced(seq!["var"@]), seq![' '] + v);
        let x = spaced(seq!["var"@]) + (seq![' '] + v);
        assert(x =~= " var "@ + v);
        assert(x[0] == ' ');
        lemma_tokens_join(render_vars(init), x);
        assert(render_vars(vs) =~= render_vars(init) + x);
    }
}

/// A written option is the word `type` and then its words.
#[verifier::rlimit(30)]
proof fn lemma_tokens_option(o: SpecUciOption)
    ensures
        tokens(render_option(o)) == seq!["type"@] + option_words(o),
        ends_token(seq![' '] + render_option(o)),
{
    reveal_strlit("type");
    let e = Seq::<char>::empty();
    lemma_tokens_blank(e);
    let rest = render_option(o).skip(4);
    assert(tokens(rest) == option_words(o) && ends_token(rest)) by {
        reveal_strlit("type check default ");
        reveal_strlit("type spin default ");
        reveal_strlit(" min ");
        reveal_strlit(" max ");
        reveal_strlit("type combo default ");
        reveal_strlit("type button");
        reveal_strlit("type string default ");
        reveal_strlit("check");
        reveal_strlit("spin");
        reveal_strlit("combo");
        reveal_strlit("button");
        reveal_strlit("string");
        reveal_strlit("default");
        reveal_strlit("min");
        reveal_strlit("max");
        reveal_strlit("true");
        reveal_strlit("false");
        reveal_with_fuel(spaced, 8);
        match o {
            SpecUciOption::Check { default } => {
                let b = if default {
                    "true"@
                } else {
                    "false"@
                };
                let ws = seq!["check"@, "default"@, b];
                assert(rest =~= spaced(ws));
                assert forall|i: int| 0 <= i < ws.len() implies is_word(#[trigger] ws[i]) by {}
                lemma_tokens_spaced(ws);
            },
            SpecUciOption::Spin { default, min, max } => {
                let d0 = signed_decimal(default as int);
                let d1 = signed_decimal(min as int);
                let d2 = signed_decimal(max as int);
                lemma_signed_decimal_is_word(default as int);
                lemma_signed_decimal_is_word(min as int);
                lemma_signed_decimal_is_word(max as int);
                let ws = seq!["spin"@, "default"@, d0, "min"@, d1, "max"@, d2];
                assert(rest =~= spaced(ws));
                assert forall|i: int| 0 <= i < ws.len() implies is_word(#[trigger] ws[i]) by {}
                lemma_tokens_spaced(ws);
            },
            SpecUciOption::Combo { default, var } => {
                let ws = seq!["combo"@, "default"@];
                lemma_tokens_vars(var);
                lemma_tokens_spaced_text(default, render_vars(var));
                assert forall|i: int| 0 <= i < ws.len() implies is_word(#[trigger] ws[i]) by {}
                lemma_tokens_spaced(ws);
                let t = seq![' '] + default + render_vars(var);
                lemma_tokens_join(spaced(ws), t);
                assert(rest =~= spaced(ws) + t);
                assert(option_words(o) =~= ws + (tokens(default) + var_words(var)));
            },
            SpecUciOption::Button => {
                let ws = seq!["button"@];
                assert(rest =~= spaced(ws));
                lemma_tokens_spaced(ws);
            },
            SpecUciOption::String { default } => {
                let ws = seq!["string"@, "default"@];
                lemma_tokens_spaced_text(default, e);
                assert(seq![' '] + default + e =~= seq![' '] + default);
                assert(tokens(default) + Seq::<Seq<char>>::empty() =~= tokens(default));
                assert forall|i: int| 0 <= i < ws.len() implies is_word(#[trigger] ws[i]) by {}
                lemma_tokens_spaced(ws);
                lemma_tokens_join(spaced(ws), seq![' '] + default);
                assert(rest =~= spaced(ws) + (seq![' '] + default));
                assert(render_option(o) =~= "type"@ + rest);
            },
        }
    }
    assert(render_option(o) == "type"@ + rest) by {
        reveal_strlit("type check default ");
        reveal_strlit("type spin default ");
        reveal_strlit("type combo default ");
        reveal_strlit("type button");
        reveal_strlit("type string default ");
        let r = render_option(o);
        assert(r.len() >= 4);
        assert(r.take(4) =~= "type"@);
        assert(r =~= r.take(4) + r.skip(4));
    }
    assert(is_word("type"@));
    lemma_tokens_word_first("type"@, rest);
    assert(tokens(render_option(o)) == tokens("type"@ + rest));
    assert((seq![' '] + render_option(o))[0] == ' ');
}

/// The words of a written answer of this kind.
proof fn lemma_answer_tokens_id_name(v: SpecUciOut, lines: Seq<(u32, Seq<Seq<char>>)>)
    requires
        v is IdName,
    ensures
        tokens(render_out(v, lines)) == answer_tokens(v, lines),
{
    reveal_strlit("id");
    reveal_strlit("id name ");
    reveal_strlit("id author ");
    reveal_strlit("name");
    reveal_strlit("author");
    reveal_strlit("uciok");
    reveal_strlit("readyok");
    reveal_strlit("bestmove");
    reveal_strlit("bestmove ");
    reveal_strlit("bestmove (none)");
    reveal_strlit("(none)");
    reveal_strlit(" ponder ");
    reveal_strlit("ponder");
    reveal_strlit("option");
    reveal_strlit("option name ");
    reveal_strlit(" ");
    reveal_with_fuel(spaced, 3);
    let line = render_out(v, lines);
    let e = Seq::<char>::empty();
    lemma_tokens_blank(e);
    match v {
        SpecUciOut::IdName(n) => {
                lemma_tokens_spaced_text(n, e);
                assert(seq![' '] + n + e =~= seq![' '] + n);
                let ws = seq!["name"@];
                lemma_tokens_spaced(ws);
                lemma_tokens_join(spaced(ws), seq![' '] + n);
                lemma_tokens_word_first("id"@, spaced(ws) + (seq![' '] + n));
                assert(line =~= "id"@ + (spaced(ws) + (seq![' '] + n)));
                assert(answer_tokens(v, lines) =~= seq!["id"@] + (ws + (tokens(n) + Seq::<
                    Seq<char>,
                >::empty())));
        },
        _ => {},
    }
}

/// The words of a written answer of this kind.
proof fn lemma_answer_tokens_id_author(v: SpecUciOut, lines: Seq<(u32, Seq<Seq<char>>)>)
    requires
        v is IdAuthor,
    ensures
        tokens(render_out(v, lines)) == answer_tokens(v, lines),
{
    reveal_strlit("id");
    reveal_strlit("id name ");
    reveal_strlit("id author ");
    reveal_strlit("name");
    reveal_strlit("author");
    reveal_strlit("uciok");
    reveal_strlit("readyok");
    reveal_strlit("bestmove");
    reveal_strlit("bestmove ");
    reveal_strlit("bestmove (none)");
    reveal_strlit("(none)");
    reveal_strlit(" ponder ");
    reveal_strlit("ponder");
    reveal_strlit("option");
    reveal_strlit("option name ");
    reveal_strlit(" ");
    reveal_with_fuel(spaced, 3);
    let line = render_out(v, lines);
    let e = Seq::<char>::empty();
    lemma_tokens_blank(e);
    match v {
        SpecUciOut::IdAuthor(n) => {
                lemma_tokens_spaced_text(n, e);
                assert(seq![' '] + n + e =~= seq![' '] + n);
                let ws = seq!["author"@];
                lemma_tokens_spaced(ws);
                lemma_tokens_join(spaced(ws), seq![' '] + n);
                lemma_tokens_word_first("id"@, spaced(ws) + (seq![' '] + n));
                assert(line =~= "id"@ + (spaced(ws) + (seq![' '] + n)));
                assert(answer_tokens(v, lines) =~= seq!["id"@] + (ws + (tokens(n) + Seq::<
                    Seq<char>,
                >::empty())));
        },
        _ => {},
    }
}

/// The words of a written answer of this kind.
proof fn lemma_answer_tokens_bestmove(v: SpecUciOut, lines: Seq<(u32, Seq<Seq<char>>)>)
    requires
        v matches SpecUciOut::Bestmove { m, ponder } && (m matches Some(x) ==> is_move_text(x))
            && (ponder matches Some(p) ==> is_move_text(p)),
    ensures
        tokens(render_out(v, lines)) == answer_tokens(v, lines),
{
    reveal_strlit("id");
    reveal_strlit("id name ");
    reveal_strlit("id author ");
    reveal_strlit("name");
    reveal_strlit("author");
    reveal_strlit("uciok");
    reveal_strlit("readyok");
    reveal_strlit("bestmove");
    reveal_strlit("bestmove ");
    reveal_strlit("bestmove (none)");
    reveal_strlit("(none)");
    reveal_strlit(" ponder ");
    reveal_strlit("ponder");
    reveal_strlit("option");
    reveal_strlit("option name ");
    reveal_strlit(" ");
    reveal_with_fuel(spaced, 3);
    let line = render_out(v, lines);
    let e = Seq::<char>::empty();
    lemma_tokens_blank(e);
    match v {
        SpecUciOut::Bestmove { m, ponder } => {
                let mt = match m {
                    Some(x) => x,
                    None => "(none)"@,
                };
                assert(is_word(mt)) by {
                    if let Some(x) = m {
                        lemma_move_no_line_break(x);
                    }
                }
                let pt = crate::render::render_text(" ponder "@, ponder);
                let pw = match ponder {
                    Some(p) => seq!["ponder"@, p],
                    None => Seq::<Seq<char>>::empty(),
                };
                assert(tokens(pt) == pw && ends_token(pt)) by {
                    if let Some(p) = ponder {
                        lemma_move_no_line_break(p);
                        let ws = seq!["ponder"@, p];
                        assert(pt =~= spaced(ws));
                        assert forall|i: int| 0 <= i < ws.len() implies is_word(#[trigger] ws[i]) by {}
                        lemma_tokens_spaced(ws);
                    } else {
                        lemma_tokens_blank(pt);
                    }
                }
                let ws = seq![mt];
                lemma_tokens_spaced(ws);
                lemma_tokens_join(spaced(ws), pt);
                lemma_tokens_word_first("bestmove"@, spaced(ws) + pt);
                assert(line =~= "bestmove"@ + (spaced(ws) + pt));
                assert(answer_tokens(v, lines) =~= seq!["bestmove"@] + (ws + pw));
        },
        _ => {},
    }
}

/// The words of a written answer of this kind.
proof fn lemma_answer_tokens_option(v: SpecUciOut, lines: Seq<(u32, Seq<Seq<char>>)>)
    requires
        v is Option,
    ensures
        tokens(render_out(v, lines)) == answer_tokens(v, lines),
{
    reveal_strlit("id");
    reveal_strlit("id name ");
    reveal_strlit("id author ");
    reveal_strlit("name");
    reveal_strlit("author");
    reveal_strlit("uciok");
    reveal_strlit("readyok");
    reveal_strlit("bestmove");
    reveal_strlit("bestmove ");
    reveal_strlit("bestmove (none)");
    reveal_strlit("(none)");
    reveal_strlit(" ponder ");
    reveal_strlit("ponder");
    reveal_strlit("option");
    reveal_strlit("option name ");
    reveal_strlit(" ");
    reveal_with_fuel(spaced, 3);
    let line = render_out(v, lines);
    let e = Seq::<char>::empty();
    lemma_tokens_blank(e);
    match v {
        SpecUciOut::Option { name, option } => {
                lemma_tokens_option(option);
                let ro = seq![' '] + render_option(option);
                lemma_tokens_after_space(render_option(option));
                lemma_tokens_spaced_text(name, ro);
                let t = seq![' '] + name + ro;
                let ws = seq!["name"@];
                lemma_tokens_spaced(ws);
                lemma_tokens_join(spaced(ws), t);
                lemma_tokens_word_first("option"@, spaced(ws) + t);
                assert(line =~= "option"@ + (spaced(ws) + t));
                assert(answer_tokens(v, lines) =~= seq!["option"@] + (ws + (tokens(name) + (seq![
                    "type"@,
                ] + option_words(option)))));
        },
        _ => {},
    }
}

/// The words of a written answer of this kind.
proof fn lemma_answer_tokens_plain(v: SpecUciOut, lines: Seq<(u32, Seq<Seq<char>>)>)
    requires
        v is Uciok || v is Readyok,
    ensures
        tokens(render_out(v, lines)) == answer_tokens(v, lines),
{
    reveal_strlit("id");
    reveal_strlit("id name ");
    reveal_strlit("id author ");
    reveal_strlit("name");
    reveal_strlit("author");
    reveal_strlit("uciok");
    reveal_strlit("readyok");
    reveal_strlit("bestmove");
    reveal_strlit("bestmove ");
    reveal_strlit("bestmove (none)");
    reveal_strlit("(none)");
    reveal_strlit(" ponder ");
    reveal_strlit("ponder");
    reveal_strlit("option");
    reveal_strlit("option name ");
    reveal_strlit(" ");
    reveal_with_fuel(spaced, 3);
    let line = render_out(v, lines);
    let e = Seq::<char>::empty();
    lemma_tokens_blank(e);
    match v {
        _ => {
                let w = answer_word(v);
                lemma_tokens_word_first(w, e);
                assert(line =~= w + e);
                assert(seq![w] + Seq::<Seq<char>>::empty() =~= answer_tokens(v, lines));
        },
    }
}

/// Each answer is written word by word as the protocol has it: `id name` or `id author`
/// and the text; `uciok`; `readyok`; `bestmove`, the move or `(none)`, and `ponder` and
/// the move to ponder where there is one; `info` and its fields (see `law_info_words`);
/// `option name`, the name, `type` and the kind of the option with its arguments:
/// `check default` and `true` or `false`, `spin default`, `min` and `max` with their
/// numbers, `combo default`, the default and `var` before each variant, `button`, or
/// `string default` and the default.
pub proof fn law_answer_tokens(v: SpecUciOut, line: Seq<char>)
    requires
        written_answer(v, line),
        v matches SpecUciOut::Bestmove { m, ponder } ==> (m matches Some(x) ==> is_move_text(x))
            && (ponder matches Some(p) ==> is_move_text(p)),
        v matches SpecUciOut::Info(i) ==> {
            &&& (i.pv matches Some(ms) ==> all_move_texts(ms))
            &&& (i.currmove matches Some(m) ==> is_move_text(m))
            &&& (forall|j: int|
                0 <= j < i.refutation.len() ==> is_move_text(#[trigger] i.refutation[j].0))
            &&& lines_of_moves(i.refutation)
            &&& (forall|k: u32| #[trigger]
                i.currline.contains_key(k) ==> all_move_texts(i.currline[k]))
        },
    ensures
        exists|lines: Seq<(u32, Seq<Seq<char>>)>|
            lists_lines(lines, answer_lines(v)) && tokens(line) == #[trigger] answer_tokens(
                v,
                lines,
            ),
{
    let lines = choose|l: Seq<(u32, Seq<Seq<char>>)>|
        #[trigger] lists_lines(l, answer_lines(v)) && line == render_out(v, l);
    match v {
        SpecUciOut::IdName(_) => lemma_answer_tokens_id_name(v, lines),
        SpecUciOut::IdAuthor(_) => lemma_answer_tokens_id_author(v, lines),
        SpecUciOut::Bestmove { .. } => lemma_answer_tokens_bestmove(v, lines),
        SpecUciOut::Option { .. } => lemma_answer_tokens_option(v, lines),
        SpecUciOut::Info(i) => {
            law_info_words(i, line);
            let l2 = choose|l: Seq<(u32, Seq<Seq<char>>)>|
                lists_lines(l, i.currline) && tokens(line) == #[trigger] info_words_of(i, l);
            assert(answer_tokens(v, l2) == info_words_of(i, l2));
        },
        _ => lemma_answer_tokens_plain(v, lines),
    }
}

} // verus!
