//! The commands and answers of the protocol, and their mathematical views.

use vstd::prelude::*;
use vstd::utf8::encode_utf8;
use crate::chess::{Fen, UciMove};
use std::collections::HashMap;

verus! {

/// The ASCII lower case of the byte `b`; other bytes stay as they are.
pub open spec fn ascii_lowercase_byte(b: u8) -> u8 {
    if 65 <= b <= 90 {
        (b + 32) as u8
    } else {
        b
    }
}

/// The bytes `b`, each in ASCII lower case.
pub open spec fn ascii_folded(b: Seq<u8>) -> Seq<u8> {
    b.map_values(|x: u8| ascii_lowercase_byte(x))
}

/// Whether `a` and `b` are equal once ASCII letters are put in lower case, byte by byte
/// of their UTF-8 encodings.
pub open spec fn same_ignoring_ascii_case(a: Seq<char>, b: Seq<char>) -> bool {
    ascii_folded(encode_utf8(a)) == ascii_folded(encode_utf8(b))
}

/// The byte `b` with an ASCII capital letter made small.
fn lowercase_byte(b: u8) -> (res: u8)
    ensures
        res == ascii_lowercase_byte(b),
{
    if 65 <= b && b <= 90 {
        b + 32
    } else {
        b
    }
}

/// Whether `a` and `b` are equal but for the case of ASCII letters.
pub fn eq_ignore_ascii_case(a: &str, b: &str) -> (res: bool)
    ensures
        res == same_ignoring_ascii_case(a@, b@),
{
    let x = a.as_bytes();
    let y = b.as_bytes();
    if x.len() != y.len() {
        assert(ascii_folded(x@).len() != ascii_folded(y@).len());
        return false;
    }
    let mut i: usize = 0;
    while i < x.len()
        invariant
            x@.len() == y@.len(),
            x@ == encode_utf8(a@),
            y@ == encode_utf8(b@),
            i <= x@.len(),
            forall|j: int|
                0 <= j < i ==> ascii_lowercase_byte(x@[j]) == ascii_lowercase_byte(y@[j]),
        decreases x@.len() - i,
    {
        if lowercase_byte(x[i]) != lowercase_byte(y[i]) {
            assert(ascii_folded(x@)[i as int] != ascii_folded(y@)[i as int]);
            return false;
        }
        i += 1;
    }
    assert(ascii_folded(x@) =~= ascii_folded(y@));
    true
}

/// The name of an engine option. Names that differ only in the case of ASCII letters
/// are equal.
#[derive(Clone, Debug)]
pub struct UciOptionName(pub String);

impl View for UciOptionName {
    type V = Seq<char>;

    open spec fn view(&self) -> Seq<char> {
        self.0@
    }
}

impl PartialEq for UciOptionName {
    fn eq(&self, other: &UciOptionName) -> (res: bool) {
        eq_ignore_ascii_case(self.0.as_str(), other.0.as_str())
    }
}

impl vstd::std_specs::cmp::PartialEqSpecImpl for UciOptionName {
    open spec fn obeys_eq_spec() -> bool {
        true
    }

    open spec fn eq_spec(&self, other: &UciOptionName) -> bool {
        same_ignoring_ascii_case(self@, other@)
    }
}

impl Eq for UciOptionName {

}

/// The bytes that a hasher is fed for the name `name`: its UTF-8 bytes in ASCII lower
/// case, then the byte `0xff`.
pub open spec fn option_name_hash_input(name: Seq<char>) -> Seq<u8> {
    ascii_folded(encode_utf8(name)).push(0xffu8)
}

impl UciOptionName {
    /// The bytes that a hasher is fed for this name, in order; names that are equal
    /// give the same bytes.
    pub fn hash_input(&self) -> (res: Vec<u8>)
        ensures
            res@ == option_name_hash_input(self@),
    {
        let x = self.0.as_str().as_bytes();
        let mut res: Vec<u8> = Vec::new();
        let mut i: usize = 0;
        while i < x.len()
            invariant
                i <= x@.len(),
                x@ == encode_utf8(self@),
                res@ == ascii_folded(x@.take(i as int)),
            decreases x@.len() - i,
        {
            res.push(lowercase_byte(x[i]));
            i += 1;
            assert(ascii_folded(x@.take(i as int)) =~= ascii_folded(x@.take(i - 1)).push(
                ascii_lowercase_byte(x@[i - 1]),
            ));
        }
        assert(x@.take(i as int) =~= x@);
        res.push(0xffu8);
        res
    }
}

/// The value given to an engine option.
#[derive(Clone, Debug, PartialEq, Eq)]
pub struct UciOptionValue(pub String);

impl View for UciOptionValue {
    type V = Seq<char>;

    open spec fn view(&self) -> Seq<char> {
        self.0@
    }
}

/// The views of a sequence of strings.
pub open spec fn strings_view(v: Seq<String>) -> Seq<Seq<char>> {
    v.map_values(|s: String| s@)
}

/// The views of a sequence of moves.
pub open spec fn moves_view(v: Seq<UciMove>) -> Seq<Seq<char>> {
    v.map_values(|m: UciMove| m@)
}

/// The kind and the default of an engine option.
#[derive(Clone, Debug, PartialEq, Eq)]
pub enum UciOption {
    Check { default: bool },
    Spin { default: i64, min: i64, max: i64 },
    Combo { default: String, var: Vec<String> },
    Button,
    String { default: String },
}

/// The view of a `UciOption`.
pub enum SpecUciOption {
    Check { default: bool },
    Spin { default: i64, min: i64, max: i64 },
    Combo { default: Seq<char>, var: Seq<Seq<char>> },
    Button,
    String { default: Seq<char> },
}

impl View for UciOption {
    type V = SpecUciOption;

    open spec fn view(&self) -> SpecUciOption {
        match self {
            UciOption::Check { default } => SpecUciOption::Check { default: *default },
            UciOption::Spin { default, min, max } => SpecUciOption::Spin {
                default: *default,
                min: *min,
                max: *max,
            },
            UciOption::Combo { default, var } => SpecUciOption::Combo {
                default: default@,
                var: strings_view(var@),
            },
            UciOption::Button => SpecUciOption::Button,
            UciOption::String { default } => SpecUciOption::String { default: default@ },
        }
    }
}

/// A command that a graphical interface sends to an engine. Times are in milliseconds.
#[derive(Clone, Debug, PartialEq, Eq)]
pub enum UciIn {
    Uci,
    Isready,
    Setoption { name: UciOptionName, value: Option<UciOptionValue> },
    Ucinewgame,
    Position { fen: Option<Fen>, moves: Vec<UciMove> },
    Go {
        searchmoves: Option<Vec<UciMove>>,
        ponder: bool,
        wtime: Option<u64>,
        btime: Option<u64>,
        winc: Option<u64>,
        binc: Option<u64>,
        movestogo: Option<u32>,
        depth: Option<u32>,
        nodes: Option<u64>,
        mate: Option<u32>,
        movetime: Option<u64>,
        infinite: bool,
    },
    Stop,
    Ponderhit,
}

/// The view of the arguments of a `go` command.
pub struct SpecGo {
    pub searchmoves: Option<Seq<Seq<char>>>,
    pub ponder: bool,
    pub wtime: Option<u64>,
    pub btime: Option<u64>,
    pub winc: Option<u64>,
    pub binc: Option<u64>,
    pub movestogo: Option<u32>,
    pub depth: Option<u32>,
    pub nodes: Option<u64>,
    pub mate: Option<u32>,
    pub movetime: Option<u64>,
    pub infinite: bool,
}

/// The view of a `UciIn`.
pub enum SpecUciIn {
    Uci,
    Isready,
    Setoption { name: Seq<char>, value: Option<Seq<char>> },
    Ucinewgame,
    Position { fen: Option<Seq<char>>, moves: Seq<Seq<char>> },
    Go(SpecGo),
    Stop,
    Ponderhit,
}

/// The view of an optional value that has one.
pub open spec fn option_view<T: View>(o: Option<T>) -> Option<T::V> {
    match o {
        Some(x) => Some(x@),
        None => None,
    }
}

/// The view of an optional sequence of moves.
pub open spec fn option_moves_view(o: Option<Vec<UciMove>>) -> Option<Seq<Seq<char>>> {
    match o {
        Some(v) => Some(moves_view(v@)),
        None => None,
    }
}

impl View for UciIn {
    type V = SpecUciIn;

    open spec fn view(&self) -> SpecUciIn {
        match self {
            UciIn::Uci => SpecUciIn::Uci,
            UciIn::Isready => SpecUciIn::Isready,
            UciIn::Setoption { name, value } => SpecUciIn::Setoption {
                name: name@,
                value: option_view(*value),
            },
            UciIn::Ucinewgame => SpecUciIn::Ucinewgame,
            UciIn::Position { fen, moves } => SpecUciIn::Position {
                fen: option_view(*fen),
                moves: moves_view(moves@),
            },
            UciIn::Go {
                searchmoves,
                ponder,
                wtime,
                btime,
                winc,
                binc,
                movestogo,
                depth,
                nodes,
                mate,
                movetime,
                infinite,
            } => SpecUciIn::Go(
                SpecGo {
                    searchmoves: option_moves_view(*searchmoves),
                    ponder: *ponder,
                    wtime: *wtime,
                    btime: *btime,
                    winc: *winc,
                    binc: *binc,
                    movestogo: *movestogo,
                    depth: *depth,
                    nodes: *nodes,
                    mate: *mate,
                    movetime: *movetime,
                    infinite: *infinite,
                },
            ),
            UciIn::Stop => SpecUciIn::Stop,
            UciIn::Ponderhit => SpecUciIn::Ponderhit,
        }
    }
}

/// An evaluation: in centipawns, or as a mate in a number of moves.
#[derive(Clone, Copy, Debug, PartialEq, Eq, Structural)]
pub enum Eval {
    Cp(i64),
    Mate(i32),
}

/// An evaluation, and whether it is only a lower or an upper bound.
#[derive(Clone, Copy, Debug, PartialEq, Eq, Structural)]
pub struct Score {
    pub eval: Eval,
    pub lowerbound: bool,
    pub upperbound: bool,
}

/// The number of a line of a search for several best lines: a number from 1 up.
#[derive(Clone, Copy, Debug, PartialEq, Eq, Hash)]
pub struct MultiPv {
    n: u32,
}

impl View for MultiPv {
    type V = u32;

    closed spec fn view(&self) -> u32 {
        self.n
    }
}

impl MultiPv {
    #[verifier::type_invariant]
    spec fn inv(&self) -> bool {
        self.n >= 1
    }

    /// The line number `n`, which must not be 0.
    pub fn new(n: u32) -> (res: Option<MultiPv>)
        ensures
            match res {
                Some(m) => n >= 1 && m@ == n,
                None => n == 0,
            },
    {
        if n == 0 {
            None
        } else {
            Some(MultiPv { n })
        }
    }

    /// The line number, at least 1.
    pub fn get(&self) -> (res: u32)
        ensures
            res == self@,
            res >= 1,
    {
        proof {
            use_type_invariant(self);
        }
        self.n
    }
}

/// An answer that an engine sends to a graphical interface. Times are in milliseconds.
/// The current lines of `info` are keyed by processor number.
#[derive(Clone, Debug, PartialEq, Eq)]
pub enum UciOut {
    IdName(String),
    IdAuthor(String),
    Uciok,
    Readyok,
    Bestmove { m: Option<UciMove>, ponder: Option<UciMove> },
    Info {
        multipv: Option<MultiPv>,
        depth: Option<u32>,
        seldepth: Option<u32>,
        time: Option<u64>,
        nodes: Option<u64>,
        pv: Option<Vec<UciMove>>,
        score: Option<Score>,
        currmove: Option<UciMove>,
        currmovenumber: Option<u32>,
        hashfull: Option<u32>,
        nps: Option<u64>,
        tbhits: Option<u64>,
        sbhits: Option<u64>,
        cpuload: Option<u32>,
        refutation: Refutations,
        currline: HashMap<u32, Vec<UciMove>>,
        string: Option<String>,
    },
    Option { name: UciOptionName, option: UciOption },
}

/// The view of the fields of an `info` answer.
pub struct SpecInfo {
    pub multipv: Option<u32>,
    pub depth: Option<u32>,
    pub seldepth: Option<u32>,
    pub time: Option<u64>,
    pub nodes: Option<u64>,
    pub pv: Option<Seq<Seq<char>>>,
    pub score: Option<Score>,
    pub currmove: Option<Seq<char>>,
    pub currmovenumber: Option<u32>,
    pub hashfull: Option<u32>,
    pub nps: Option<u64>,
    pub tbhits: Option<u64>,
    pub sbhits: Option<u64>,
    pub cpuload: Option<u32>,
    pub refutation: Seq<(Seq<char>, Seq<Seq<char>>)>,
    pub currline: Map<u32, Seq<Seq<char>>>,
    pub string: Option<Seq<char>>,
}

/// The view of a `UciOut`.
pub enum SpecUciOut {
    IdName(Seq<char>),
    IdAuthor(Seq<char>),
    Uciok,
    Readyok,
    Bestmove { m: Option<Seq<char>>, ponder: Option<Seq<char>> },
    Info(SpecInfo),
    Option { name: Seq<char>, option: SpecUciOption },
}

/// The view of the refutation lines of an `info` answer.
pub open spec fn refutation_view(v: Seq<(UciMove, Vec<UciMove>)>) -> Seq<
    (Seq<char>, Seq<Seq<char>>),
> {
    v.map_values(|e: (UciMove, Vec<UciMove>)| (e.0@, moves_view(e.1@)))
}

/// Whether `i` is the first position of the key `k` in the lines `m`.
pub open spec fn is_first_key<K>(m: Seq<(K, Seq<Seq<char>>)>, k: K, i: int) -> bool {
    &&& 0 <= i < m.len()
    &&& m[i].0 == k
    &&& forall|j: int| 0 <= j < i ==> m[j].0 != k
}

/// The lines `m` with the line `v` under the key `k`: it replaces the line that `k`
/// has, where it has one, and comes last otherwise.
pub open spec fn line_insert<K>(m: Seq<(K, Seq<Seq<char>>)>, k: K, v: Seq<Seq<char>>) -> Seq<
    (K, Seq<Seq<char>>),
> {
    if exists|i: int| is_first_key(m, k, i) {
        m.update(choose|i: int| is_first_key(m, k, i), (k, v))
    } else {
        m.push((k, v))
    }
}

/// Whether no key occurs twice among the lines `ls`.
pub open spec fn distinct_keys<K>(ls: Seq<(K, Seq<Seq<char>>)>) -> bool {
    forall|i: int, j: int| 0 <= i < j < ls.len() ==> ls[i].0 != ls[j].0
}

/// Putting a line under its key keeps the keys distinct.
pub proof fn lemma_line_insert_distinct<K>(m: Seq<(K, Seq<Seq<char>>)>, k: K, v: Seq<Seq<char>>)
    requires
        distinct_keys(m),
    ensures
        distinct_keys(line_insert(m, k, v)),
{
    if exists|i: int| is_first_key(m, k, i) {
        let i = choose|i: int| is_first_key(m, k, i);
        let u = m.update(i, (k, v));
        assert forall|a: int, b: int| 0 <= a < b < u.len() implies u[a].0 != u[b].0 by {
            assert(u[a].0 == m[a].0);
            assert(u[b].0 == m[b].0);
        }
    } else {
        let u = m.push((k, v));
        assert forall|a: int, b: int| 0 <= a < b < u.len() implies u[a].0 != u[b].0 by {
            if b == m.len() {
                assert(!is_first_key(m, k, a));
                if m[a].0 == k {
                    let j = choose|j: int| 0 <= j < a && m[j].0 == k;
                    assert(is_first_key(m, k, j)) by {
                        assert forall|x: int| 0 <= x < j implies m[x].0 != k by {
                            assert(!is_first_key(m, k, x));
                        }
                    }
                }
            }
        }
    }
}

/// The refutation lines of an `info` answer: each refuted move once, with the moves that
/// refute it, in the order in which the refuted moves first came.
#[derive(Debug, PartialEq, Eq)]
pub struct Refutations {
    lines: Vec<(UciMove, Vec<UciMove>)>,
}

impl View for Refutations {
    type V = Seq<(Seq<char>, Seq<Seq<char>>)>;

    closed spec fn view(&self) -> Seq<(Seq<char>, Seq<Seq<char>>)> {
        refutation_view(self.lines@)
    }
}

/// A copy of the moves `ms`.
fn clone_moves(ms: &Vec<UciMove>) -> (res: Vec<UciMove>)
    ensures
        moves_view(res@) == moves_view(ms@),
{
    let mut res: Vec<UciMove> = Vec::new();
    let mut i: usize = 0;
    while i < ms.len()
        invariant
            i <= ms@.len(),
            res@.len() == i,
            moves_view(res@) == moves_view(ms@).take(i as int),
        decreases ms@.len() - i,
    {
        let c = ms[i].clone();
        assert(c@ == ms@[i as int]@);
        let ghost before = res@;
        res.push(c);
        i += 1;
        assert forall|j: int| 0 <= j < i implies moves_view(res@)[j] == moves_view(ms@).take(
            i as int,
        )[j] by {
            if j < i - 1 {
                assert(res@[j] == before[j]);
                assert(moves_view(before)[j] == moves_view(ms@).take(i - 1)[j]);
            }
        }
        assert(moves_view(res@) =~= moves_view(ms@).take(i as int));
    }
    assert(moves_view(ms@).take(ms@.len() as int) =~= moves_view(ms@));
    res
}

impl Clone for Refutations {
    fn clone(&self) -> (res: Refutations)
        ensures
            res@ == self@,
    {
        proof {
            use_type_invariant(self);
        }
        let mut lines: Vec<(UciMove, Vec<UciMove>)> = Vec::new();
        let mut i: usize = 0;
        while i < self.lines.len()
            invariant
                i <= self.lines@.len(),
                lines@.len() == i,
                refutation_view(lines@) == refutation_view(self.lines@).take(i as int),
            decreases self.lines@.len() - i,
        {
            let k = self.lines[i].0.clone();
            let v = clone_moves(&self.lines[i].1);
            let ghost before = lines@;
            lines.push((k, v));
            i += 1;
            assert forall|j: int| 0 <= j < i implies refutation_view(lines@)[j]
                == refutation_view(self.lines@).take(i as int)[j] by {
                if j < i - 1 {
                    assert(lines@[j] == before[j]);
                    assert(refutation_view(before)[j] == refutation_view(self.lines@).take(i - 1)[j]);
                }
            }
            assert(refutation_view(lines@) =~= refutation_view(self.lines@).take(i as int));
        }
        assert(refutation_view(self.lines@).take(self.lines@.len() as int) =~= refutation_view(
            self.lines@,
        ));
        Refutations { lines }
    }
}

impl Refutations {
    #[verifier::type_invariant]
    spec fn inv(&self) -> bool {
        distinct_keys(refutation_view(self.lines@))
    }

    /// No refutation lines.
    pub fn new() -> (res: Refutations)
        ensures
            res@ == Seq::<(Seq<char>, Seq<Seq<char>>)>::empty(),
    {
        let res = Refutations { lines: Vec::new() };
        assert(res@ =~= Seq::<(Seq<char>, Seq<Seq<char>>)>::empty());
        res
    }

    /// Puts the line `v` under the refuted move `k`: it replaces the line that `k` has,
    /// where it has one, and comes last otherwise.
    pub fn insert(&mut self, k: UciMove, v: Vec<UciMove>)
        ensures
            final(self)@ == line_insert(old(self)@, k@, moves_view(v@)),
    {
        proof {
            use_type_invariant(&*self);
            lemma_line_insert_distinct(self@, k@, moves_view(v@));
        }
        let mut lines: Vec<(UciMove, Vec<UciMove>)> = Vec::new();
        std::mem::swap(&mut lines, &mut self.lines);
        insert_line_by_move(&mut lines, k, v);
        self.lines = lines;
    }

    /// The lines, in order; no refuted move occurs twice.
    pub fn lines(&self) -> (res: &Vec<(UciMove, Vec<UciMove>)>)
        ensures
            refutation_view(res@) == self@,
            distinct_keys(self@),
    {
        proof {
            use_type_invariant(self);
        }
        &self.lines
    }
}

/// Puts the line `v` under the key `k` into `m`, replacing the line that `k` has.
fn insert_line_by_move(m: &mut Vec<(UciMove, Vec<UciMove>)>, k: UciMove, v: Vec<UciMove>)
    ensures
        refutation_view(final(m)@) == line_insert(refutation_view(old(m)@), k@, moves_view(v@)),
{
    let ghost mv = refutation_view(m@);
    let mut i: usize = 0;
    while i < m.len()
        invariant
            i <= m@.len(),
            mv == refutation_view(m@),
            m@ == old(m)@,
            forall|j: int| 0 <= j < i ==> mv[j].0 != k@,
        decreases m@.len() - i,
    {
        if m[i].0.same_as(&k) {
            assert(is_first_key(mv, k@, i as int));
            proof {
                let c = choose|c: int| is_first_key(mv, k@, c);
                assert(c == i);
            }
            let ghost kv = k@;
            let ghost vv = moves_view(v@);
            m.set(i, (k, v));
            assert(refutation_view(m@) =~= mv.update(i as int, (kv, vv)));
            return ;
        }
        i += 1;
    }
    assert(!exists|j: int| is_first_key(mv, k@, j));
    let ghost kv = k@;
    let ghost vv = moves_view(v@);
    m.push((k, v));
    assert(refutation_view(m@) =~= mv.push((kv, vv)));
}

/// The view of the current lines of an `info` answer, by the number of the processor.
pub open spec fn currline_view(m: Map<u32, Vec<UciMove>>) -> Map<u32, Seq<Seq<char>>> {
    m.map_values(|v: Vec<UciMove>| moves_view(v@))
}

impl View for UciOut {
    type V = SpecUciOut;

    open spec fn view(&self) -> SpecUciOut {
        match self {
            UciOut::IdName(name) => SpecUciOut::IdName(name@),
            UciOut::IdAuthor(author) => SpecUciOut::IdAuthor(author@),
            UciOut::Uciok => SpecUciOut::Uciok,
            UciOut::Readyok => SpecUciOut::Readyok,
            UciOut::Bestmove { m, ponder } => SpecUciOut::Bestmove {
                m: option_view(*m),
                ponder: option_view(*ponder),
            },
            UciOut::Info {
                multipv,
                depth,
                seldepth,
                time,
                nodes,
                pv,
                score,
                currmove,
                currmovenumber,
                hashfull,
                nps,
                tbhits,
                sbhits,
                cpuload,
                refutation,
                currline,
                string,
            } => SpecUciOut::Info(
                SpecInfo {
                    multipv: option_view(*multipv),
                    depth: *depth,
                    seldepth: *seldepth,
                    time: *time,
                    nodes: *nodes,
                    pv: option_moves_view(*pv),
                    score: *score,
                    currmove: option_view(*currmove),
                    currmovenumber: *currmovenumber,
                    hashfull: *hashfull,
                    nps: *nps,
                    tbhits: *tbhits,
                    sbhits: *sbhits,
                    cpuload: *cpuload,
                    refutation: refutation@,
                    currline: currline_view(currline@),
                    string: option_view(*string),
                },
            ),
            UciOut::Option { name, option } => SpecUciOut::Option {
                name: name@,
                option: option@,
            },
        }
    }
}

/// The kinds of `ProtocolError`.
#[derive(Clone, Copy, Debug, PartialEq, Eq, Structural)]
pub enum ErrorKind {
    UnexpectedToken,
    UnexpectedLineBreak,
    ExpectedEndOfLine,
    UnexpectedEndOfLine,
    InvalidFen,
    InvalidMove,
    InvalidInteger,
}

/// Why a line could not be read.
#[derive(Debug)]
pub enum ProtocolError {
    UnexpectedToken,
    UnexpectedLineBreak,
    ExpectedEndOfLine,
    UnexpectedEndOfLine,
    InvalidFen(shakmaty::fen::ParseFenError),
    InvalidMove(shakmaty::uci::ParseUciError),
    InvalidInteger(std::num::ParseIntError),
}

impl View for ProtocolError {
    type V = ErrorKind;

    open spec fn view(&self) -> ErrorKind {
        match self {
            ProtocolError::UnexpectedToken => ErrorKind::UnexpectedToken,
            ProtocolError::UnexpectedLineBreak => ErrorKind::UnexpectedLineBreak,
            ProtocolError::ExpectedEndOfLine => ErrorKind::ExpectedEndOfLine,
            ProtocolError::UnexpectedEndOfLine => ErrorKind::UnexpectedEndOfLine,
            ProtocolError::InvalidFen(_) => ErrorKind::InvalidFen,
            ProtocolError::InvalidMove(_) => ErrorKind::InvalidMove,
            ProtocolError::InvalidInteger(_) => ErrorKind::InvalidInteger,
        }
    }
}

impl ProtocolError {
    /// The kind of this error.
    pub fn kind(&self) -> (res: ErrorKind)
        ensures
            res == self@,
    {
        match self {
            ProtocolError::UnexpectedToken => ErrorKind::UnexpectedToken,
            ProtocolError::UnexpectedLineBreak => ErrorKind::UnexpectedLineBreak,
            ProtocolError::ExpectedEndOfLine => ErrorKind::ExpectedEndOfLine,
            ProtocolError::UnexpectedEndOfLine => ErrorKind::UnexpectedEndOfLine,
            ProtocolError::InvalidFen(_) => ErrorKind::InvalidFen,
            ProtocolError::InvalidMove(_) => ErrorKind::InvalidMove,
            ProtocolError::InvalidInteger(_) => ErrorKind::InvalidInteger,
        }
    }
}

} // verus!
