//! Reading back what was written: moves, numbers and the pieces of a line.

use vstd::prelude::*;
use crate::chess::{is_move_text, uci_move_text};
use crate::line_break::{has_line_break, is_line_break_char};
use crate::parser::{spec_parse_all_moves, spec_parse_moves};
use crate::render::render_moves;
use crate::text_lemmas::{all_separators, ends_token, is_word, lemma_read_blank, lemma_read_word};
use crate::tokens::{is_separator_char, spec_read};

verus! {

/// Whether every move of `ms` is the text of a move.
pub open spec fn all_move_texts(ms: Seq<Seq<char>>) -> bool {
    forall|i: int| 0 <= i < ms.len() ==> is_move_text(#[trigger] ms[i])
}

/// Whether the token that `r` starts with, if any, is no move.
pub open spec fn no_move_follows(r: Seq<char>) -> bool {
    match spec_read(r).0 {
        Some(w) => uci_move_text(w) is None,
        None => true,
    }
}

/// Written moves start with a space, or are nothing.
pub proof fn lemma_render_moves_cons(m: Seq<char>, ms: Seq<Seq<char>>)
    ensures
        render_moves(seq![m] + ms) == seq![' '] + m + render_moves(ms),
    decreases ms.len(),
{
    let x = seq![m] + ms;
    if ms.len() == 0 {
        assert(x =~= seq![m]);
        assert(x.drop_last() =~= Seq::<Seq<char>>::empty());
        assert(render_moves(Seq::<Seq<char>>::empty()) =~= Seq::<char>::empty());
        assert(x.last() == m);
        assert(render_moves(x) =~= seq![' '] + m);
        assert(render_moves(ms) =~= Seq::<char>::empty());
        assert(seq![' '] + m + render_moves(ms) =~= seq![' '] + m);
    } else {
        assert(x.drop_last() =~= seq![m] + ms.drop_last());
        assert(x.last() == ms.last());
        lemma_render_moves_cons(m, ms.drop_last());
        assert(render_moves(x) =~= seq![' '] + m + render_moves(ms));
    }
}

/// Written moves are nothing, or start with a space.
pub proof fn lemma_render_moves_ends_token(ms: Seq<Seq<char>>, r: Seq<char>)
    requires
        ends_token(r),
    ensures
        ends_token(render_moves(ms) + r),
{
    if ms.len() > 0 {
        assert(ms =~= seq![ms[0]] + ms.drop_first());
        lemma_render_moves_cons(ms[0], ms.drop_first());
        assert((render_moves(ms) + r)[0] == ' ');
    } else {
        assert(render_moves(ms) + r =~= r);
    }
}

/// Moves written after separators `p` read back, up to what follows them.
pub proof fn lemma_parse_moves_render(p: Seq<char>, ms: Seq<Seq<char>>, r: Seq<char>)
    requires
        all_separators(p),
        all_move_texts(ms),
        ends_token(r),
        no_move_follows(r),
        ms.len() == 0 ==> p.len() == 0,
    ensures
        spec_parse_moves(p + render_moves(ms) + r) == (ms, r),
    decreases ms.len(),
{
    if ms.len() == 0 {
        assert(p + render_moves(ms) + r =~= r);
    } else {
        let m = ms[0];
        let tail = ms.drop_first();
        assert(ms =~= seq![m] + tail);
        lemma_render_moves_cons(m, tail);
        let rr = render_moves(tail) + r;
        lemma_render_moves_ends_token(tail, r);
        assert(p + render_moves(ms) + r =~= (p + seq![' ']) + m + rr);
        assert(all_separators(p + seq![' ']));
        assert(is_move_text(ms[0]));
        assert(is_word(m));
        lemma_read_word(p + seq![' '], m, rr);
        assert(all_move_texts(tail)) by {
            assert forall|i: int| 0 <= i < tail.len() implies is_move_text(#[trigger] tail[i]) by {
                assert(tail[i] == ms[i + 1]);
            }
        }
        lemma_parse_moves_render(Seq::<char>::empty(), tail, r);
        assert(Seq::<char>::empty() + render_moves(tail) + r =~= rr);
        assert(seq![m] + tail =~= ms);
    }
}

/// Moves written after separators `p` up to the end of the line all read back.
pub proof fn lemma_parse_all_moves_render(p: Seq<char>, ms: Seq<Seq<char>>)
    requires
        all_separators(p),
        all_move_texts(ms),
    ensures
        spec_parse_all_moves(p + render_moves(ms)) == (
            Ok::<Seq<Seq<char>>, crate::types::ErrorKind>(ms),
            Seq::<char>::empty(),
        ),
    decreases ms.len(),
{
    if ms.len() == 0 {
        assert(all_separators(p + render_moves(ms))) by {
            assert(p + render_moves(ms) =~= p);
        }
        lemma_read_blank(p + render_moves(ms));
        assert(ms =~= Seq::<Seq<char>>::empty());
    } else {
        let m = ms[0];
        let tail = ms.drop_first();
        assert(ms =~= seq![m] + tail);
        lemma_render_moves_cons(m, tail);
        let rr = render_moves(tail);
        lemma_render_moves_ends_token(tail, Seq::<char>::empty());
        assert(rr + Seq::<char>::empty() =~= rr);
        assert(p + render_moves(ms) =~= (p + seq![' ']) + m + rr);
        assert(all_separators(p + seq![' ']));
        assert(is_move_text(ms[0]));
        lemma_read_word(p + seq![' '], m, rr);
        assert(all_move_texts(tail)) by {
            assert forall|i: int| 0 <= i < tail.len() implies is_move_text(#[trigger] tail[i]) by {
                assert(tail[i] == ms[i + 1]);
            }
        }
        lemma_parse_all_moves_render(Seq::<char>::empty(), tail);
        assert(Seq::<char>::empty() + rr =~= rr);
        assert(seq![m] + tail =~= ms);
        assert(spec_read(p + render_moves(ms)) == (Some(m), rr));
        assert(uci_move_text(m) == Some(m));
    }
}

/// A line break in two joined texts is a line break in one of them.
pub proof fn lemma_line_break_concat(a: Seq<char>, b: Seq<char>)
    ensures
        has_line_break(a + b) == (has_line_break(a) || has_line_break(b)),
{
    if has_line_break(a + b) {
        let i = choose|i: int| 0 <= i < (a + b).len() && is_line_break_char(#[trigger] (a + b)[i]);
        if i < a.len() {
            assert(a[i] == (a + b)[i]);
        } else {
            assert(b[i - a.len()] == (a + b)[i]);
        }
    }
    if has_line_break(a) {
        let i = choose|i: int| 0 <= i < a.len() && is_line_break_char(#[trigger] a[i]);
        assert((a + b)[i] == a[i]);
    }
    if has_line_break(b) {
        let i = choose|i: int| 0 <= i < b.len() && is_line_break_char(#[trigger] b[i]);
        assert((a + b)[a.len() + i] == b[i]);
    }
}

/// Written moves hold no line break.
pub proof fn lemma_render_moves_no_line_break(ms: Seq<Seq<char>>)
    requires
        all_move_texts(ms),
    ensures
        !has_line_break(render_moves(ms)),
    decreases ms.len(),
{
    if ms.len() > 0 {
        assert(all_move_texts(ms.drop_last())) by {
            assert forall|i: int| 0 <= i < ms.drop_last().len() implies is_move_text(
                #[trigger] ms.drop_last()[i],
            ) by {
                assert(ms.drop_last()[i] == ms[i]);
            }
        }
        lemma_render_moves_no_line_break(ms.drop_last());
        let m = ms.last();
        assert(is_move_text(ms[ms.len() - 1]));
        lemma_line_break_concat(render_moves(ms.drop_last()), seq![' ']);
        lemma_line_break_concat(render_moves(ms.drop_last()) + seq![' '], m);
        assert(!has_line_break(seq![' ']));
        assert(!has_line_break(m));
    } else {
        assert(!has_line_break(render_moves(ms)));
    }
}


/// A decimal numeral holds no line break.
pub proof fn lemma_decimal_no_line_break(n: nat)
    ensures
        !has_line_break(crate::numbers::decimal(n)),
{
    crate::numbers::lemma_decimal(n);
    let d = crate::numbers::decimal(n);
    assert forall|i: int| 0 <= i < d.len() implies !is_line_break_char(#[trigger] d[i]) by {
        assert(crate::numbers::is_digit(d[i]));
    }
}


/// The text of a move holds no line break.
pub proof fn lemma_move_no_line_break(m: Seq<char>)
    requires
        is_move_text(m),
    ensures
        !has_line_break(m),
        is_word(m),
{
    assert forall|i: int| 0 <= i < m.len() implies !is_line_break_char(#[trigger] m[i]) by {
        assert(crate::chess::is_move_char(m[i]));
    }
    assert forall|i: int| 0 <= i < m.len() implies !is_separator_char(#[trigger] m[i]) by {
        assert(crate::chess::is_move_char(m[i]));
    }
}

/// Reading everything from separators gives nothing.
pub proof fn lemma_read_until_blank(p: Seq<char>)
    requires
        all_separators(p),
    ensures
        crate::tokens::spec_read_until(p, seq![]) == (None::<Seq<char>>, Seq::<char>::empty()),
{
    crate::text_lemmas::lemma_leading_separators_concat(p, Seq::<char>::empty());
    assert(p + Seq::<char>::empty() =~= p);
    assert(crate::tokens::trim_separators(p) =~= Seq::<char>::empty());
}


/// A signed numeral holds no line break.
pub proof fn lemma_signed_decimal_no_line_break(v: int)
    ensures
        !has_line_break(crate::numbers::signed_decimal(v)),
{
    if v < 0 {
        lemma_decimal_no_line_break((-v) as nat);
        lemma_line_break_concat(seq!['-'], crate::numbers::decimal((-v) as nat));
        assert(!has_line_break(seq!['-']));
    } else {
        lemma_decimal_no_line_break(v as nat);
    }
}

} // verus!
