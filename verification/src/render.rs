//! Writing commands and answers as lines of the protocol.

use vstd::prelude::*;
use vstd::std_specs::iter::IteratorSpec;
use std::collections::HashMap;
use crate::chess::UciMove;
use crate::numbers::{decimal, push_decimal, push_signed_decimal, signed_decimal};
use crate::types::{
    currline_view, moves_view, refutation_view, strings_view, Eval, Refutations, Score, SpecGo,
    SpecInfo,
    SpecUciIn, SpecUciOption, SpecUciOut, UciIn, UciOption, UciOptionName, UciOptionValue,
    UciOut,
};

verus! {

/// The moves `ms`, each after a space.
pub open spec fn render_moves(ms: Seq<Seq<char>>) -> Seq<char>
    decreases ms.len(),
{
    if ms.len() == 0 {
        seq![]
    } else {
        render_moves(ms.drop_last()) + seq![' '] + ms.last()
    }
}

/// `label` and the decimal numeral of the number, where there is one.
pub open spec fn render_number(label: Seq<char>, v: Option<nat>) -> Seq<char> {
    match v {
        Some(n) => label + decimal(n),
        None => seq![],
    }
}

/// An optional `u32` as an optional number.
pub open spec fn nat_of_u32(v: Option<u32>) -> Option<nat> {
    match v {
        Some(n) => Some(n as nat),
        None => None,
    }
}

/// An optional `u64` as an optional number.
pub open spec fn nat_of_u64(v: Option<u64>) -> Option<nat> {
    match v {
        Some(n) => Some(n as nat),
        None => None,
    }
}

/// `word` where `flag` holds.
pub open spec fn render_flag(word: Seq<char>, flag: bool) -> Seq<char> {
    if flag {
        word
    } else {
        seq![]
    }
}

/// `label` and the text, where there is one.
pub open spec fn render_text(label: Seq<char>, v: Option<Seq<char>>) -> Seq<char> {
    match v {
        Some(t) => label + t,
        None => seq![],
    }
}

/// The arguments of a `go` command, each after a space.
pub open spec fn render_go(g: SpecGo) -> Seq<char> {
    "go"@ + (match g.searchmoves {
        Some(ms) => " searchmoves"@ + render_moves(ms),
        None => seq![],
    }) + render_flag(" ponder"@, g.ponder) + render_number(" wtime "@, nat_of_u64(g.wtime))
        + render_number(" btime "@, nat_of_u64(g.btime)) + render_number(
        " winc "@,
        nat_of_u64(g.winc),
    ) + render_number(" binc "@, nat_of_u64(g.binc)) + render_number(
        " movestogo "@,
        nat_of_u32(g.movestogo),
    ) + render_number(" depth "@, nat_of_u32(g.depth)) + render_number(
        " nodes "@,
        nat_of_u64(g.nodes),
    ) + render_number(" mate "@, nat_of_u32(g.mate)) + render_number(
        " movetime "@,
        nat_of_u64(g.movetime),
    ) + render_flag(" infinite"@, g.infinite)
}

/// The line of the command `v`.
pub open spec fn render_in(v: SpecUciIn) -> Seq<char> {
    match v {
        SpecUciIn::Uci => "uci"@,
        SpecUciIn::Isready => "isready"@,
        SpecUciIn::Setoption { name, value } => "setoption name "@ + name + render_text(
            " value "@,
            value,
        ),
        SpecUciIn::Ucinewgame => "ucinewgame"@,
        SpecUciIn::Position { fen, moves } => (match fen {
            Some(f) => "position fen "@ + f,
            None => "position startpos"@,
        }) + (if moves.len() > 0 {
            " moves "@ + render_moves(moves)
        } else {
            seq![]
        }),
        SpecUciIn::Go(g) => render_go(g),
        SpecUciIn::Stop => "stop"@,
        SpecUciIn::Ponderhit => "ponderhit"@,
    }
}

/// The text of an evaluation.
pub open spec fn render_eval(e: Eval) -> Seq<char> {
    match e {
        Eval::Cp(v) => "cp "@ + signed_decimal(v as int),
        Eval::Mate(v) => "mate "@ + signed_decimal(v as int),
    }
}

/// The text of a score.
pub open spec fn render_score(s: Score) -> Seq<char> {
    render_eval(s.eval) + render_flag(" lowerbound"@, s.lowerbound) + render_flag(
        " upperbound"@,
        s.upperbound,
    )
}

/// The variants of a `combo` option, each after ` var `.
pub open spec fn render_vars(vs: Seq<Seq<char>>) -> Seq<char>
    decreases vs.len(),
{
    if vs.len() == 0 {
        seq![]
    } else {
        render_vars(vs.drop_last()) + " var "@ + vs.last()
    }
}

/// The text of an option.
pub open spec fn render_option(o: SpecUciOption) -> Seq<char> {
    match o {
        SpecUciOption::Check { default } => "type check default "@ + (if default {
            "true"@
        } else {
            "false"@
        }),
        SpecUciOption::Spin { default, min, max } => "type spin default "@ + signed_decimal(
            default as int,
        ) + " min "@ + signed_decimal(min as int) + " max "@ + signed_decimal(max as int),
        SpecUciOption::Combo { default, var } => "type combo default "@ + default + render_vars(
            var,
        ),
        SpecUciOption::Button => "type button"@,
        SpecUciOption::String { default } => "type string default "@ + default,
    }
}

/// The refutation lines, each after ` refutation ` and its refuted move.
pub open spec fn render_refutations(ls: Seq<(Seq<char>, Seq<Seq<char>>)>) -> Seq<char>
    decreases ls.len(),
{
    if ls.len() == 0 {
        seq![]
    } else {
        render_refutations(ls.drop_last()) + " refutation "@ + ls.last().0 + render_moves(
            ls.last().1,
        )
    }
}

/// The current lines, each after ` currline ` and its processor number.
pub open spec fn render_currlines(ls: Seq<(u32, Seq<Seq<char>>)>) -> Seq<char>
    decreases ls.len(),
{
    if ls.len() == 0 {
        seq![]
    } else {
        render_currlines(ls.drop_last()) + " currline "@ + decimal(ls.last().0 as nat)
            + render_moves(ls.last().1)
    }
}

/// Whether `ls` lists the current lines `m`: each line once, after its processor number,
/// in some order.
pub open spec fn lists_lines(ls: Seq<(u32, Seq<Seq<char>>)>, m: Map<u32, Seq<Seq<char>>>) -> bool {
    &&& forall|i: int, j: int| 0 <= i < j < ls.len() ==> ls[i].0 != ls[j].0
    &&& forall|i: int|
        0 <= i < ls.len() ==> m.contains_key(#[trigger] ls[i].0) && m[ls[i].0] == ls[i].1
    &&& forall|k: u32| #[trigger]
        m.contains_key(k) ==> exists|i: int| 0 <= i < ls.len() && ls[i].0 == k
}

/// The fields of an `info` answer, each after a space, with its current lines listed in
/// the order `lines`.
pub open spec fn render_info(i: SpecInfo, lines: Seq<(u32, Seq<Seq<char>>)>) -> Seq<char> {
    "info"@ + render_number(" multipv "@, nat_of_u32(i.multipv)) + render_number(
        " depth "@,
        nat_of_u32(i.depth),
    ) + render_number(" seldepth "@, nat_of_u32(i.seldepth)) + render_number(
        " time "@,
        nat_of_u64(i.time),
    ) + render_number(" nodes "@, nat_of_u64(i.nodes)) + (match i.pv {
        Some(ms) => " pv"@ + render_moves(ms),
        None => seq![],
    }) + (match i.score {
        Some(s) => " score "@ + render_score(s),
        None => seq![],
    }) + render_text(" currmove "@, i.currmove) + render_number(
        " currmovenumber "@,
        nat_of_u32(i.currmovenumber),
    ) + render_number(" hashfull "@, nat_of_u32(i.hashfull)) + render_number(
        " nps "@,
        nat_of_u64(i.nps),
    ) + render_number(" tbhits "@, nat_of_u64(i.tbhits)) + render_number(
        " sbhits "@,
        nat_of_u64(i.sbhits),
    ) + render_number(" cpuload "@, nat_of_u32(i.cpuload)) + render_refutations(i.refutation)
        + render_currlines(lines) + render_text(" string "@, i.string)
}

/// The line of the answer `v`, with the current lines of an `info` answer listed in the
/// order `lines`.
pub open spec fn render_out(v: SpecUciOut, lines: Seq<(u32, Seq<Seq<char>>)>) -> Seq<char> {
    match v {
        SpecUciOut::IdName(name) => "id name "@ + name,
        SpecUciOut::IdAuthor(author) => "id author "@ + author,
        SpecUciOut::Uciok => "uciok"@,
        SpecUciOut::Readyok => "readyok"@,
        SpecUciOut::Bestmove { m, ponder } => (match m {
            Some(m) => "bestmove "@ + m,
            None => "bestmove (none)"@,
        }) + render_text(" ponder "@, ponder),
        SpecUciOut::Info(i) => render_info(i, lines),
        SpecUciOut::Option { name, option } => "option name "@ + name + " "@ + render_option(
            option,
        ),
    }
}

/// The current lines of the answer `v`: those of an `info` answer, none for the others.
pub open spec fn answer_lines(v: SpecUciOut) -> Map<u32, Seq<Seq<char>>> {
    match v {
        SpecUciOut::Info(i) => i.currline,
        _ => Map::empty(),
    }
}

/// Whether `line` is a line in which the answer `v` may be written: its current lines
/// come in some order, each once.
pub open spec fn written_answer(v: SpecUciOut, line: Seq<char>) -> bool {
    exists|lines: Seq<(u32, Seq<Seq<char>>)>|
        #[trigger] lists_lines(lines, answer_lines(v)) && line == render_out(v, lines)
}

/// Appends the moves `ms` to `out`, each after a space.
fn push_moves(out: &mut String, ms: &Vec<UciMove>)
    ensures
        final(out)@ == old(out)@ + render_moves(moves_view(ms@)),
{
    let ghost start = out@;
    let mut i: usize = 0;
    while i < ms.len()
        invariant
            i <= ms@.len(),
            out@ == start + render_moves(moves_view(ms@).take(i as int)),
        decreases ms@.len() - i,
    {
        let ghost before = out@;
        out.push(' ');
        out.append(ms[i].as_str());
        i += 1;
        proof {
            let t = moves_view(ms@).take(i as int);
            assert(t.drop_last() =~= moves_view(ms@).take(i - 1));
            assert(t.last() == ms@[i - 1]@);
            assert(out@ =~= start + (render_moves(t.drop_last()) + seq![' '] + t.last()));
        }
    }
    assert(moves_view(ms@).take(ms@.len() as int) =~= moves_view(ms@));
}

/// Appends `label` and the decimal numeral of `v` to `out`, where there is one.
fn push_number(out: &mut String, label: &str, v: Option<u64>)
    ensures
        final(out)@ == old(out)@ + render_number(label@, nat_of_u64(v)),
{
    match v {
        Some(n) => {
            let ghost start = out@;
            out.append(label);
            push_decimal(out, n);
            assert(out@ =~= start + (label@ + decimal(n as nat)));
        },
        None => {
            assert(out@ =~= out@ + Seq::<char>::empty());
        },
    }
}

/// Appends `label` and the decimal numeral of `v` to `out`, where there is one.
fn push_number32(out: &mut String, label: &str, v: Option<u32>)
    ensures
        final(out)@ == old(out)@ + render_number(label@, nat_of_u32(v)),
{
    match v {
        Some(n) => push_number(out, label, Some(n as u64)),
        None => push_number(out, label, None),
    }
}

/// Appends `word` to `out` where `flag` holds.
fn push_flag(out: &mut String, word: &str, flag: bool)
    ensures
        final(out)@ == old(out)@ + render_flag(word@, flag),
{
    if flag {
        out.append(word);
    } else {
        assert(out@ =~= out@ + Seq::<char>::empty());
    }
}

/// Appends `label` and the text to `out`, where there is one.
fn push_text(out: &mut String, label: &str, v: Option<&str>)
    ensures
        final(out)@ == old(out)@ + render_text(label@, match v {
            Some(t) => Some(t@),
            None => None,
        }),
{
    match v {
        Some(t) => {
            let ghost start = out@;
            out.append(label);
            out.append(t);
            assert(out@ =~= start + (label@ + t@));
        },
        None => {
            assert(out@ =~= out@ + Seq::<char>::empty());
        },
    }
}

/// A new string that holds `s`.
fn string_of(s: &str) -> (res: String)
    ensures
        res@ == s@,
{
    let mut res = String::new();
    res.append(s);
    assert(res@ =~= s@);
    res
}

impl UciOptionName {
    /// The name as it is written in a line.
    pub fn to_uci_string(&self) -> (res: String)
        ensures
            res@ == self@,
    {
        string_of(self.0.as_str())
    }
}

impl UciOptionValue {
    /// The value as it is written in a line.
    pub fn to_uci_string(&self) -> (res: String)
        ensures
            res@ == self@,
    {
        string_of(self.0.as_str())
    }
}

impl UciIn {
    /// The line of this command.
    pub fn to_uci_string(&self) -> (res: String)
        ensures
            res@ == render_in(self@),
    {
        match self {
            UciIn::Uci => string_of("uci"),
            UciIn::Isready => string_of("isready"),
            UciIn::Setoption { name, value } => {
                let mut out = string_of("setoption name ");
                out.append(name.0.as_str());
                match value {
                    Some(v) => push_text(&mut out, " value ", Some(v.0.as_str())),
                    None => push_text(&mut out, " value ", None),
                }
                out
            },
            UciIn::Ucinewgame => string_of("ucinewgame"),
            UciIn::Position { fen, moves } => {
                let mut out = match fen {
                    Some(f) => {
                        let mut out = string_of("position fen ");
                        out.append(f.as_str());
                        out
                    },
                    None => string_of("position startpos"),
                };
                if moves.len() > 0 {
                    let ghost start = out@;
                    out.append(" moves ");
                    push_moves(&mut out, moves);
                    assert(out@ =~= start + (" moves "@ + render_moves(moves_view(moves@))));
                } else {
                    assert(out@ =~= out@ + Seq::<char>::empty());
                }
                out
            },
            UciIn::Go {
                searchmoves,
                ponder,
                wtime,
                btime,
                winc,
                binc,
                movestogo,
                depth,
                nodes,
                mate,
                movetime,
                infinite,
            } => {
                let mut out = string_of("go");
                match searchmoves {
                    Some(ms) => {
                        let ghost start = out@;
                        out.append(" searchmoves");
                        push_moves(&mut out, ms);
                        assert(out@ =~= start + (" searchmoves"@ + render_moves(
                            moves_view(ms@),
                        )));
                    },
                    None => {
                        assert(out@ =~= out@ + Seq::<char>::empty());
                    },
                }
                push_flag(&mut out, " ponder", *ponder);
                push_number(&mut out, " wtime ", *wtime);
                push_number(&mut out, " btime ", *btime);
                push_number(&mut out, " winc ", *winc);
                push_number(&mut out, " binc ", *binc);
                push_number32(&mut out, " movestogo ", *movestogo);
                push_number32(&mut out, " depth ", *depth);
                push_number(&mut out, " nodes ", *nodes);
                push_number32(&mut out, " mate ", *mate);
                push_number(&mut out, " movetime ", *movetime);
                push_flag(&mut out, " infinite", *infinite);
                out
            },
            UciIn::Stop => string_of("stop"),
            UciIn::Ponderhit => string_of("ponderhit"),
        }
    }
}

impl Eval {
    /// The text of this evaluation.
    pub fn to_uci_string(&self) -> (res: String)
        ensures
            res@ == render_eval(*self),
    {
        match self {
            Eval::Cp(v) => {
                let mut out = string_of("cp ");
                push_signed_decimal(&mut out, *v);
                out
            },
            Eval::Mate(v) => {
                let mut out = string_of("mate ");
                push_signed_decimal(&mut out, *v as i64);
                out
            },
        }
    }
}

impl Score {
    /// The text of this score.
    pub fn to_uci_string(&self) -> (res: String)
        ensures
            res@ == render_score(*self),
    {
        let mut out = self.eval.to_uci_string();
        push_flag(&mut out, " lowerbound", self.lowerbound);
        push_flag(&mut out, " upperbound", self.upperbound);
        out
    }
}

/// Appends the variants `vs` to `out`, each after ` var `.
fn push_vars(out: &mut String, vs: &Vec<String>)
    ensures
        final(out)@ == old(out)@ + render_vars(strings_view(vs@)),
{
    let ghost start = out@;
    let mut i: usize = 0;
    while i < vs.len()
        invariant
            i <= vs@.len(),
            out@ == start + render_vars(strings_view(vs@).take(i as int)),
        decreases vs@.len() - i,
    {
        out.append(" var ");
        out.append(vs[i].as_str());
        i += 1;
        proof {
            let t = strings_view(vs@).take(i as int);
            assert(t.drop_last() =~= strings_view(vs@).take(i - 1));
            assert(t.last() == vs@[i - 1]@);
            assert(out@ =~= start + (render_vars(t.drop_last()) + " var "@ + t.last()));
        }
    }
    assert(strings_view(vs@).take(vs@.len() as int) =~= strings_view(vs@));
}

impl UciOption {
    /// The text of this option.
    pub fn to_uci_string(&self) -> (res: String)
        ensures
            res@ == render_option(self@),
    {
        match self {
            UciOption::Check { default } => {
                let mut out = string_of("type check default ");
                if *default {
                    out.append("true");
                } else {
                    out.append("false");
                }
                out
            },
            UciOption::Spin { default, min, max } => {
                let mut out = string_of("type spin default ");
                push_signed_decimal(&mut out, *default);
                out.append(" min ");
                push_signed_decimal(&mut out, *min);
                out.append(" max ");
                push_signed_decimal(&mut out, *max);
                out
            },
            UciOption::Combo { default, var } => {
                let mut out = string_of("type combo default ");
                out.append(default.as_str());
                push_vars(&mut out, var);
                out
            },
            UciOption::Button => string_of("type button"),
            UciOption::String { default } => {
                let mut out = string_of("type string default ");
                out.append(default.as_str());
                out
            },
        }
    }
}

/// Appends the refutation lines `refutations` to `out`.
fn push_refutations(out: &mut String, refutations: &Refutations)
    ensures
        final(out)@ == old(out)@ + render_refutations(refutations@),
{
    let ls = refutations.lines();
    let ghost start = out@;
    let mut i: usize = 0;
    while i < ls.len()
        invariant
            i <= ls@.len(),
            out@ == start + render_refutations(refutation_view(ls@).take(i as int)),
        decreases ls@.len() - i,
    {
        out.append(" refutation ");
        out.append(ls[i].0.as_str());
        push_moves(out, &ls[i].1);
        i += 1;
        proof {
            let t = refutation_view(ls@).take(i as int);
            assert(t.drop_last() =~= refutation_view(ls@).take(i - 1));
            assert(t.last() == (ls@[i - 1].0@, moves_view(ls@[i - 1].1@)));
            assert(out@ =~= start + (render_refutations(t.drop_last()) + " refutation "@
                + t.last().0 + render_moves(t.last().1)));
        }
    }
    assert(refutation_view(ls@).take(ls@.len() as int) =~= refutation_view(ls@));
}

/// The current lines in the order of `walk`, an order in which a map of them is walked.
pub open spec fn walked_lines(walk: Seq<(&u32, &Vec<UciMove>)>) -> Seq<(u32, Seq<Seq<char>>)> {
    walk.map_values(|e: (&u32, &Vec<UciMove>)| (*e.0, moves_view(e.1@)))
}

/// Appends the current lines `m` to `out`, in the order in which `m` is walked.
fn push_currlines(out: &mut String, m: &HashMap<u32, Vec<UciMove>>)
    ensures
        exists|lines: Seq<(u32, Seq<Seq<char>>)>|
            #[trigger] lists_lines(lines, currline_view(m@)) && final(out)@ == old(out)@
                + render_currlines(lines),
{
    let ghost start = out@;
    let ghost walk = m.iter().remaining();
    let ghost listed = walked_lines(walk);
    for (k, ms) in it: m.iter()
        invariant
            it.seq() == walk,
            listed == walked_lines(walk),
            out@ == start + render_currlines(listed.take(it.index() as int)),
    {
        proof {
            assert((k, ms) == walk[it.index() as int]);
        }
        out.append(" currline ");
        push_decimal(out, *k as u64);
        push_moves(out, ms);
        proof {
            let t = listed.take(it.index() + 1);
            assert(t.drop_last() =~= listed.take(it.index() as int));
            assert(t.last() == (*k, moves_view(ms@)));
            assert(out@ =~= start + (render_currlines(t.drop_last()) + " currline "@ + decimal(
                t.last().0 as nat,
            ) + render_moves(t.last().1)));
        }
    }
    proof {
        assert(listed.take(walk.len() as int) =~= listed);
        assert(out@ == start + render_currlines(listed));
        assert(walk.no_duplicates());
        let cm = currline_view(m@);
        assert forall|i: int| 0 <= i < listed.len() implies cm.contains_key(
            #[trigger] listed[i].0,
        ) && cm[listed[i].0] == listed[i].1 by {
            assert(m@.contains_key(*walk[i].0) && m@[*walk[i].0] == *walk[i].1);
        }
        assert forall|i: int, j: int| 0 <= i < j < listed.len() implies listed[i].0
            != listed[j].0 by {
            assert(m@.contains_key(*walk[i].0) && m@[*walk[i].0] == *walk[i].1);
            assert(m@.contains_key(*walk[j].0) && m@[*walk[j].0] == *walk[j].1);
            if listed[i].0 == listed[j].0 {
                assert(walk[i] == walk[j]);
            }
        }
        assert forall|k: u32| #[trigger] cm.contains_key(k) implies exists|i: int|
            0 <= i < listed.len() && listed[i].0 == k by {
            assert(walk.contains((&k, &m@[k])));
            let i = choose|i: int| 0 <= i < walk.len() && walk[i] == (&k, &m@[k]);
            assert(listed[i].0 == k);
        }
        assert(lists_lines(listed, cm));
    }
}

impl UciOut {
    /// The line of this answer; the current lines of an `info` answer come in the order
    /// in which their map is walked, which the contract leaves open.
    #[verifier::rlimit(30)]
    pub fn to_uci_string(&self) -> (res: String)
        ensures
            written_answer(self@, res@),
    {
        let ghost lines: Seq<(u32, Seq<Seq<char>>)> = Seq::empty();
        let res = match self {
            UciOut::IdName(name) => {
                let mut out = string_of("id name ");
                out.append(name.as_str());
                out
            },
            UciOut::IdAuthor(author) => {
                let mut out = string_of("id author ");
                out.append(author.as_str());
                out
            },
            UciOut::Uciok => string_of("uciok"),
            UciOut::Readyok => string_of("readyok"),
            UciOut::Bestmove { m, ponder } => {
                let mut out = match m {
                    Some(m) => {
                        let mut out = string_of("bestmove ");
                        out.append(m.as_str());
                        out
                    },
                    None => string_of("bestmove (none)"),
                };
                match ponder {
                    Some(p) => push_text(&mut out, " ponder ", Some(p.as_str())),
                    None => push_text(&mut out, " ponder ", None),
                }
                out
            },
            UciOut::Info {
                multipv,
                depth,
                seldepth,
                time,
                nodes,
                pv,
                score,
                currmove,
                currmovenumber,
                hashfull,
                nps,
                tbhits,
                sbhits,
                cpuload,
                refutation,
                currline,
                string,
            } => {
                let mut out = string_of("info");
                let number = match multipv {
                    Some(m) => Some(m.get()),
                    None => None,
                };
                push_number32(&mut out, " multipv ", number);
                push_number32(&mut out, " depth ", *depth);
                push_number32(&mut out, " seldepth ", *seldepth);
                push_number(&mut out, " time ", *time);
                push_number(&mut out, " nodes ", *nodes);
                match pv {
                    Some(ms) => {
                        let ghost start = out@;
                        out.append(" pv");
                        push_moves(&mut out, ms);
                        assert(out@ =~= start + (" pv"@ + render_moves(moves_view(ms@))));
                    },
                    None => {
                        assert(out@ =~= out@ + Seq::<char>::empty());
                    },
                }
                match score {
                    Some(s) => {
                        let ghost start = out@;
                        out.append(" score ");
                        let text = s.to_uci_string();
                        out.append(text.as_str());
                        assert(out@ =~= start + (" score "@ + render_score(*s)));
                    },
                    None => {
                        assert(out@ =~= out@ + Seq::<char>::empty());
                    },
                }
                match currmove {
                    Some(m) => push_text(&mut out, " currmove ", Some(m.as_str())),
                    None => push_text(&mut out, " currmove ", None),
                }
                push_number32(&mut out, " currmovenumber ", *currmovenumber);
                push_number32(&mut out, " hashfull ", *hashfull);
                push_number(&mut out, " nps ", *nps);
                push_number(&mut out, " tbhits ", *tbhits);
                push_number(&mut out, " sbhits ", *sbhits);
                push_number32(&mut out, " cpuload ", *cpuload);
                push_refutations(&mut out, refutation);
                let ghost before = out@;
                push_currlines(&mut out, currline);
                proof {
                    lines = choose|l: Seq<(u32, Seq<Seq<char>>)>|
                        lists_lines(l, currline_view(currline@)) && out@ == before
                            + render_currlines(l);
                }
                match string {
                    Some(s) => push_text(&mut out, " string ", Some(s.as_str())),
                    None => push_text(&mut out, " string ", None),
                }
                out
            },
            UciOut::Option { name, option } => {
                let mut out = string_of("option name ");
                out.append(name.0.as_str());
                out.append(" ");
                let text = option.to_uci_string();
                out.append(text.as_str());
                out
            },
        };
        assert(lists_lines(lines, answer_lines(self@)) && res@ == render_out(self@, lines));
        res
    }
}

} // verus!
