//! What holds of the answers of an engine: written answers read back.

use vstd::prelude::*;
use crate::chess::is_move_text;
use crate::laws::first_token_among;
use crate::line_break::has_line_break;
use crate::parser::{
    info_start, spec_optional_move, spec_parse_bestmove, spec_parse_option, spec_uci_out_from_line,
};
use crate::readback::{lemma_line_break_concat, lemma_move_no_line_break};
use crate::render::{
    lists_lines, render_option, render_out, render_text, answer_lines, written_answer,
};
use crate::text_lemmas::{
    ends_token, is_phrase, is_word, lemma_read_blank, lemma_read_rest_of_line,
    lemma_read_until_phrase, lemma_read_word, stop_or_end,
};
use crate::tokens::{is_separator_char, spec_read, stop_follows};
use crate::types::{distinct_keys, ErrorKind, SpecInfo, SpecUciOption, SpecUciOut};
use crate::info_laws::{
    info_pieces, info_reads_back, lemma_info_args_distinct,
    lemma_info_pieces_read_back, lemma_render_info_split,
};
use crate::option_laws::{lemma_option_kind_reads_back, option_kind_text, option_reads_back};
verus! {

/// Whether the answer `v` reads back from the line that `to_uci_string` writes for it:
/// names of the engine and its author start with a word character, moves are moves as
/// `shakmaty` writes them, the fields of `info` and the option read back (see
/// `info_reads_back` and `option_reads_back`), the name of an option is a phrase that no
/// `type` token interrupts, and no text holds a line break.
pub open spec fn answer_reads_back(v: SpecUciOut) -> bool {
    match v {
        SpecUciOut::IdName(n) => n.len() > 0 && !is_separator_char(n[0]) && !has_line_break(n),
        SpecUciOut::IdAuthor(n) => n.len() > 0 && !is_separator_char(n[0]) && !has_line_break(n),
        SpecUciOut::Bestmove { m, ponder } => (m matches Some(x) ==> is_move_text(x)) && (ponder matches Some(p) ==> is_move_text(p)),
        SpecUciOut::Info(i) => info_reads_back(i),
        SpecUciOut::Option { name, option } => is_phrase(name, seq!["type"@]) && !has_line_break(name) && option_reads_back(option),
        _ => true,
    }
}

/// A written `id name` or `id author` answer reads back as itself.
proof fn lemma_id_reads_back(v: SpecUciOut, lines: Seq<(u32, Seq<Seq<char>>)>)
    requires
        answer_reads_back(v),
        v is IdName || v is IdAuthor,
    ensures
        spec_uci_out_from_line(render_out(v, lines)) == Ok::<Option<SpecUciOut>, ErrorKind>(Some(v)),
{
    reveal_strlit("id");
    reveal_strlit("name");
    reveal_strlit("author");
    reveal_strlit("id name ");
    reveal_strlit("id author ");
    assert("author"@.len() != "name"@.len());
    assert("author"@ != "name"@);
    let (w, n) = match v {
        SpecUciOut::IdName(n) => ("name"@, n),
        SpecUciOut::IdAuthor(n) => ("author"@, n),
        _ => ("name"@, seq![]),
    };
    let line = render_out(v, lines);
    assert(line =~= "id"@ + (seq![' '] + w + (seq![' '] + n)));
    lemma_read_rest_of_line(seq![' '], n);
    lemma_read_word(seq![' '], w, seq![' '] + n);
    lemma_read_word(Seq::<char>::empty(), "id"@, seq![' '] + w + (seq![' '] + n));
    assert(Seq::<char>::empty() + "id"@ + (seq![' '] + w + (seq![' '] + n)) =~= line);
    assert(!has_line_break("id name "@));
    assert(!has_line_break("id author "@));
    lemma_line_break_concat("id name "@, n);
    lemma_line_break_concat("id author "@, n);
}

/// A written `uciok` answer reads back as itself.
proof fn lemma_uciok_reads_back(lines: Seq<(u32, Seq<Seq<char>>)>)
    ensures
        spec_uci_out_from_line(render_out(SpecUciOut::Uciok, lines)) == Ok::<Option<SpecUciOut>, ErrorKind>(Some(SpecUciOut::Uciok)),
{
    reveal_strlit("id");
    reveal_strlit("uciok");
    assert("uciok"@.len() != "id"@.len());
    assert("uciok"@ != "id"@);
    assert("uciok"@ =~= Seq::<char>::empty() + "uciok"@ + Seq::<char>::empty());
    lemma_read_word(Seq::<char>::empty(), "uciok"@, Seq::<char>::empty());
    assert(!has_line_break("uciok"@));
}

/// A written `readyok` answer reads back as itself.
proof fn lemma_readyok_reads_back(lines: Seq<(u32, Seq<Seq<char>>)>)
    ensures
        spec_uci_out_from_line(render_out(SpecUciOut::Readyok, lines)) == Ok::<Option<SpecUciOut>, ErrorKind>(Some(SpecUciOut::Readyok)),
{
    reveal_strlit("id");
    reveal_strlit("readyok");
    reveal_strlit("uciok");
    assert("readyok"@.len() != "id"@.len());
    assert("readyok"@ != "id"@);
    assert("readyok"@.len() != "uciok"@.len());
    assert("readyok"@ != "uciok"@);
    assert("readyok"@ =~= Seq::<char>::empty() + "readyok"@ + Seq::<char>::empty());
    lemma_read_word(Seq::<char>::empty(), "readyok"@, Seq::<char>::empty());
    assert(!has_line_break("readyok"@));
}

/// A move as `shakmaty` writes it is not `(none)`.
proof fn lemma_move_is_not_none(m: Seq<char>)
    requires
        is_move_text(m),
    ensures
        m != "(none)"@,
{
    reveal_strlit("(none)");
    assert(crate::chess::is_move_char(m[0]));
    assert("(none)"@[0] == '(');
}

/// `(none)` is a word without line breaks.
proof fn lemma_none_token()
    ensures
        is_word("(none)"@),
        !has_line_break("(none)"@),
{
    reveal_strlit("(none)");
    assert(is_word("(none)"@));
    assert(!has_line_break("(none)"@));
}

/// A written `bestmove` answer reads back as itself.
#[verifier::rlimit(30)]
proof fn lemma_bestmove_reads_back(m: Option<Seq<char>>, ponder: Option<Seq<char>>, lines: Seq<(u32, Seq<Seq<char>>)>)
    requires
        answer_reads_back(SpecUciOut::Bestmove { m, ponder }),
    ensures
        spec_uci_out_from_line(render_out(SpecUciOut::Bestmove { m, ponder }, lines)) == Ok::<Option<SpecUciOut>, ErrorKind>(Some(SpecUciOut::Bestmove { m, ponder })),
{
    reveal_strlit("bestmove");
    reveal_strlit("id");
    reveal_strlit("readyok");
    reveal_strlit("uciok");
    reveal_strlit("ponder");
    reveal_strlit(" ponder ");
    reveal_strlit("bestmove ");
    reveal_strlit("bestmove (none)");
    reveal_strlit("(none)");
    assert("bestmove"@.len() != "id"@.len());
    assert("bestmove"@ != "id"@);
    assert("bestmove"@.len() != "uciok"@.len());
    assert("bestmove"@ != "uciok"@);
    assert("bestmove"@.len() != "readyok"@.len());
    assert("bestmove"@ != "readyok"@);
    lemma_none_token();
    let v = SpecUciOut::Bestmove { m, ponder };
    let e = Seq::<char>::empty();
    let mt = match m {
        Some(x) => x,
        None => "(none)"@,
    };
    let pt = render_text(" ponder "@, ponder);
    match m {
        Some(x) => {
            lemma_move_is_not_none(x);
            lemma_move_no_line_break(x);
        },
        None => {},
    }
    assert(is_word(mt));
    assert(!has_line_break(mt));
    assert(spec_optional_move(Some(mt)) == Ok::<Option<Seq<char>>, ErrorKind>(m));
    match ponder {
        Some(p) => {
            lemma_move_is_not_none(p);
            lemma_move_no_line_break(p);
            assert(pt =~= seq![' '] + "ponder"@ + (seq![' '] + p + e));
            lemma_read_word(seq![' '], p, e);
            lemma_read_word(seq![' '], "ponder"@, seq![' '] + p + e);
            assert(seq![' '] + p + e =~= seq![' '] + p);
            assert(spec_optional_move(Some(p)) == Ok::<Option<Seq<char>>, ErrorKind>(ponder));
            assert(!has_line_break(" ponder "@));
            lemma_line_break_concat(" ponder "@, p);
        },
        None => {
            assert(pt =~= e);
            lemma_read_blank(e);
        },
    }
    assert(ends_token(pt));
    lemma_read_word(seq![' '], mt, pt);
    assert(spec_parse_bestmove(seq![' '] + mt + pt) == (Ok::<SpecUciOut, ErrorKind>(v), e));
    let line = render_out(v, lines);
    assert(line =~= e + "bestmove"@ + (seq![' '] + mt + pt));
    lemma_read_word(e, "bestmove"@, seq![' '] + mt + pt);
    assert(!has_line_break("bestmove "@));
    lemma_line_break_concat("bestmove "@, mt);
    lemma_line_break_concat("bestmove "@ + mt, pt);
    assert(line =~= "bestmove "@ + mt + pt);
}

/// A written `info` answer reads back as itself, whatever the order of its current lines.
proof fn lemma_info_answer_reads_back(i: SpecInfo, lines: Seq<(u32, Seq<Seq<char>>)>)
    requires
        info_reads_back(i),
        lists_lines(lines, i.currline),
    ensures
        spec_uci_out_from_line(render_out(SpecUciOut::Info(i), lines)) == Ok::<Option<SpecUciOut>, ErrorKind>(Some(SpecUciOut::Info(i))),
{
    reveal_strlit("info");
    reveal_strlit("id");
    reveal_strlit("readyok");
    reveal_strlit("uciok");
    reveal_strlit("bestmove");
    assert("info"@.len() != "id"@.len());
    assert("info"@ != "id"@);
    assert("info"@.len() != "uciok"@.len());
    assert("info"@ != "uciok"@);
    assert("info"@.len() != "readyok"@.len());
    assert("info"@ != "readyok"@);
    assert("info"@.len() != "bestmove"@.len());
    assert("info"@ != "bestmove"@);
    lemma_render_info_split(i, lines);
    lemma_info_pieces_read_back(i, lines);
    let e = Seq::<char>::empty();
    let x = info_pieces(i, lines);
    assert(render_out(SpecUciOut::Info(i), lines) =~= e + "info"@ + x);
    lemma_read_word(e, "info"@, x);
    assert(!has_line_break("info"@));
    lemma_line_break_concat("info"@, x);
}

/// A written `option` answer reads back as itself.
#[verifier::rlimit(30)]
proof fn lemma_option_answer_reads_back(name: Seq<char>, o: SpecUciOption, lines: Seq<(u32, Seq<Seq<char>>)>)
    requires
        answer_reads_back(SpecUciOut::Option { name, option: o }),
    ensures
        spec_uci_out_from_line(render_out(SpecUciOut::Option { name, option: o }, lines)) == Ok::<Option<SpecUciOut>, ErrorKind>(Some(SpecUciOut::Option { name, option: o })),
{
    reveal_strlit("option");
    reveal_strlit("id");
    reveal_strlit("readyok");
    reveal_strlit("uciok");
    reveal_strlit("bestmove");
    reveal_strlit("info");
    reveal_strlit("name");
    reveal_strlit("type");
    reveal_strlit("option name ");
    reveal_strlit(" ");
    assert("option"@.len() != "id"@.len());
    assert("option"@ != "id"@);
    assert("option"@.len() != "uciok"@.len());
    assert("option"@ != "uciok"@);
    assert("option"@.len() != "readyok"@.len());
    assert("option"@ != "readyok"@);
    assert("option"@.len() != "bestmove"@.len());
    assert("option"@ != "bestmove"@);
    assert("option"@.len() != "info"@.len());
    assert("option"@ != "info"@);
    lemma_option_kind_reads_back(o);
    let e = Seq::<char>::empty();
    let k = option_kind_text(o);
    let stops = seq!["type"@];
    let after = seq![' '] + "type"@ + k;
    lemma_read_word(seq![' '], "type"@, k);
    assert(after.skip(0) =~= after);
    assert(stops[0] == "type"@);
    assert(stop_follows(after, 0, stops));
    assert(stop_or_end(after, stops));
    lemma_read_until_phrase(seq![' '], name, after, stops);
    let r1 = seq![' '] + name + after;
    assert(ends_token(r1));
    lemma_read_word(seq![' '], "name"@, r1);
    let r0 = seq![' '] + "name"@ + r1;
    lemma_read_word(e, "option"@, r0);
    let line = render_out(SpecUciOut::Option { name, option: o }, lines);
    assert(line =~= e + "option"@ + r0);
    assert(spec_parse_option(r0) == (Ok::<SpecUciOut, ErrorKind>(SpecUciOut::Option { name, option: o }), e));
    assert(!has_line_break("option name "@));
    assert(!has_line_break(" "@));
    lemma_line_break_concat("option name "@, name);
    lemma_line_break_concat("option name "@ + name, " "@);
    lemma_line_break_concat("option name "@ + name + " "@, render_option(o));
}

/// Each answer that `UciOut::to_uci_string` writes reads back, with `UciOut::from_line`,
/// as the same answer: for every answer whose texts read back as they stand
/// (`answer_reads_back`), every line in which it may be written, whatever the order of
/// its current lines, reads as `Ok(Some(v))`.
pub proof fn law_answer_reads_back(v: SpecUciOut, line: Seq<char>)
    requires
        answer_reads_back(v),
        written_answer(v, line),
    ensures
        spec_uci_out_from_line(line) == Ok::<Option<SpecUciOut>, ErrorKind>(Some(v)),
{
    let lines = choose|l: Seq<(u32, Seq<Seq<char>>)>|
        #[trigger] lists_lines(l, answer_lines(v)) && line == render_out(v, l);
    match v {
        SpecUciOut::IdName(_) => lemma_id_reads_back(v, lines),
        SpecUciOut::IdAuthor(_) => lemma_id_reads_back(v, lines),
        SpecUciOut::Uciok => lemma_uciok_reads_back(lines),
        SpecUciOut::Readyok => lemma_readyok_reads_back(lines),
        SpecUciOut::Bestmove { m, ponder } => lemma_bestmove_reads_back(m, ponder, lines),
        SpecUciOut::Info(i) => lemma_info_answer_reads_back(i, lines),
        SpecUciOut::Option { name, option } => lemma_option_answer_reads_back(name, option, lines),
    }
}

/// An `info` answer read from a line names each refuted move once: a refutation given
/// again replaces the line of the earlier one, in its place.
pub proof fn law_refuted_moves_distinct(s: Seq<char>)
    ensures
        spec_uci_out_from_line(s) matches Ok(Some(SpecUciOut::Info(i))) ==> distinct_keys(
            i.refutation,
        ),
{
    let (t, r) = spec_read(s);
    if let Some(w) = t {
        if w == "info"@ {
            lemma_info_args_distinct(r, info_start());
        }
    }
}

} // verus!
