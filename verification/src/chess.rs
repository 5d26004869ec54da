//! Moves and positions, as the `shakmaty` crate reads and writes them.

use vstd::prelude::*;

verus! {

/// `shakmaty::fen::ParseFenError`, the error of reading a position.
#[verifier::external_type_specification]
#[verifier::external_body]
pub struct ExParseFenError(shakmaty::fen::ParseFenError);

/// `shakmaty::uci::ParseUciError`, the error of reading a move.
#[verifier::external_type_specification]
#[verifier::external_body]
pub struct ExParseUciError(shakmaty::uci::ParseUciError);

/// Whether `c` names a file of the board, `a` to `h`.
pub open spec fn is_file_char(c: char) -> bool {
    'a' <= c <= 'h'
}

/// Whether `c` names a rank of the board, `1` to `8`.
pub open spec fn is_rank_char(c: char) -> bool {
    '1' <= c <= '8'
}

/// The lowercase letter of the piece that `c` names in either case, if it names one.
pub open spec fn role_lower(c: char) -> Option<char> {
    if c == 'p' || c == 'P' {
        Some('p')
    } else if c == 'n' || c == 'N' {
        Some('n')
    } else if c == 'b' || c == 'B' {
        Some('b')
    } else if c == 'r' || c == 'R' {
        Some('r')
    } else if c == 'q' || c == 'Q' {
        Some('q')
    } else if c == 'k' || c == 'K' {
        Some('k')
    } else {
        None
    }
}

/// The uppercase letter of the piece that `c` names in either case, if it names one.
pub open spec fn role_upper(c: char) -> Option<char> {
    match role_lower(c) {
        Some('p') => Some('P'),
        Some('n') => Some('N'),
        Some('b') => Some('B'),
        Some('r') => Some('R'),
        Some('q') => Some('Q'),
        Some(_) => Some('K'),
        None => None,
    }
}

/// The text in which `shakmaty` writes the move that it reads from `token`, or `None`
/// where it reads no move from it. A move is `0000`; or four or five bytes whose third
/// and fourth name a square: a drop (a piece letter, `@`, the square, and a fifth byte
/// that is ignored), written with an uppercase piece letter; or a move between two
/// squares, with a piece letter for a promotion as fifth byte, written in lowercase.
/// Each position checked is an ASCII character, so the bytes are the characters, but
/// for an ignored fifth one, which must be ASCII for the token to have five bytes.
pub closed spec fn uci_move_text(token: Seq<char>) -> Option<Seq<char>> {
    let w = token;
    if w == seq!['0', '0', '0', '0'] {
        Some(w)
    } else if (w.len() == 4 || (w.len() == 5 && (w[4] as int) < 128)) && is_file_char(w[2])
        && is_rank_char(w[3]) {
        if w[1] == '@' {
            match role_upper(w[0]) {
                Some(r) => Some(seq![r, '@', w[2], w[3]]),
                None => None,
            }
        } else if is_file_char(w[0]) && is_rank_char(w[1]) {
            if w.len() == 5 {
                match role_lower(w[4]) {
                    Some(p) => Some(w.take(4).push(p)),
                    None => None,
                }
            } else {
                Some(w)
            }
        } else {
            None
        }
    } else {
        None
    }
}

/// The text in which `shakmaty` writes the position that it reads from `text` in
/// Forsyth-Edwards notation, or `None` where it reads no position from it.
pub uninterp spec fn fen_text(text: Seq<char>) -> Option<Seq<char>>;

/// Whether `c` may stand in the text of a move: an ASCII letter or digit, or `@`.
pub open spec fn is_move_char(c: char) -> bool {
    ||| 'a' <= c <= 'z'
    ||| 'A' <= c <= 'Z'
    ||| '0' <= c <= '9'
    ||| c == '@'
}

/// Whether `m` is the text of a move as `shakmaty` writes it: it reads back as itself,
/// and it is a nonempty run of ASCII letters, digits and `@`.
pub open spec fn is_move_text(m: Seq<char>) -> bool {
    &&& uci_move_text(m) == Some(m)
    &&& m.len() > 0
    &&& forall|i: int| 0 <= i < m.len() ==> is_move_char(#[trigger] m[i])
}

/// A move that `shakmaty` reads is written in a text that it reads back as itself, made
/// of letters, digits and `@`.
pub proof fn lemma_move_text_is_move(token: Seq<char>)
    ensures
        uci_move_text(token) matches Some(t) ==> is_move_text(t),
{
    if let Some(t) = uci_move_text(token) {
        if token == seq!['0', '0', '0', '0'] {
            assert(uci_move_text(t) == Some(t));
        } else if token[1] == '@' {
            assert(t[1] == '@' && t[2] == token[2] && t[3] == token[3]);
            assert(t != seq!['0', '0', '0', '0']) by {
                assert(t[1] != seq!['0', '0', '0', '0'][1]);
            }
            assert(role_upper(t[0]) == Some(t[0]));
            assert(uci_move_text(t) == Some(t));
        } else {
            assert(t.take(4) =~= token.take(4));
            assert(t != seq!['0', '0', '0', '0']) by {
                assert(t[2] != seq!['0', '0', '0', '0'][2]);
            }
            if token.len() == 5 {
                assert(t.len() == 5);
                assert(role_lower(t[4]) == Some(t[4]));
                assert(t.take(4).push(t[4]) =~= t);
            }
            assert(uci_move_text(t) == Some(t));
        }
    }
}

/// A token that `shakmaty` reads as a move has four or five characters, and is `0000` or
/// names a square with its third and fourth.
pub proof fn lemma_move_token_shape(token: Seq<char>)
    ensures
        uci_move_text(token) is Some ==> (token.len() == 4 || token.len() == 5) && (token
            == seq!['0', '0', '0', '0'] || (is_file_char(token[2]) && is_rank_char(token[3]))),
{
}

/// Reads a move with `<shakmaty::uci::Uci as FromStr>::from_str` (`Uci::from_ascii` on
/// the bytes of `token`) and hands out the text that its `Display` writes: the contract
/// states both, as `uci_move_text(token@)`.
#[verifier::external_body]
fn read_uci_move(token: &str) -> (res: Result<String, shakmaty::uci::ParseUciError>)
    ensures
        match res {
            Ok(t) => uci_move_text(token@) == Some(t@),
            Err(_) => uci_move_text(token@) is None,
        },
{
    match token.parse::<shakmaty::uci::Uci>() {
        Ok(m) => Ok(m.to_string()),
        Err(e) => Err(e),
    }
}

/// Reads a position with `<shakmaty::fen::Fen as FromStr>::from_str` and hands out the
/// text that its `Display` writes; the contract names that text `fen_text(text@)` and
/// says nothing more of it.
#[verifier::external_body]
fn read_fen(text: &str) -> (res: Result<String, shakmaty::fen::ParseFenError>)
    ensures
        match res {
            Ok(t) => fen_text(text@) == Some(t@),
            Err(_) => fen_text(text@) is None,
        },
{
    match text.parse::<shakmaty::fen::Fen>() {
        Ok(f) => Ok(f.to_string()),
        Err(e) => Err(e),
    }
}

/// A move of the protocol (such as `e2e4`, `e7e8q`, `Q@e4` or `0000`), held as the text
/// in which `shakmaty` writes it.
#[derive(Debug, PartialEq, Eq, Hash)]
pub struct UciMove {
    text: String,
}

impl View for UciMove {
    type V = Seq<char>;

    closed spec fn view(&self) -> Seq<char> {
        self.text@
    }
}

impl Clone for UciMove {
    fn clone(&self) -> (res: UciMove)
        ensures
            res@ == self@,
    {
        proof {
            use_type_invariant(self);
        }
        UciMove { text: self.text.clone() }
    }
}

impl UciMove {
    #[verifier::type_invariant]
    spec fn inv(&self) -> bool {
        is_move_text(self.text@)
    }

    /// Reads a move from `token`.
    pub fn parse(token: &str) -> (res: Result<UciMove, shakmaty::uci::ParseUciError>)
        ensures
            match res {
                Ok(m) => uci_move_text(token@) == Some(m@),
                Err(_) => uci_move_text(token@) is None,
            },
    {
        proof {
            lemma_move_text_is_move(token@);
        }
        match read_uci_move(token) {
            Ok(text) => Ok(UciMove { text }),
            Err(e) => Err(e),
        }
    }

    /// The text of the move.
    pub fn as_str(&self) -> (res: &str)
        ensures
            res@ == self@,
            is_move_text(self@),
    {
        proof {
            use_type_invariant(self);
        }
        self.text.as_str()
    }

    /// Whether `self` and `other` are the same move.
    pub fn same_as(&self, other: &UciMove) -> (res: bool)
        ensures
            res == (self@ == other@),
    {
        self.text == other.text
    }
}

/// A position in Forsyth-Edwards notation, held as the text in which `shakmaty`
/// writes it.
#[derive(Clone, Debug, PartialEq, Eq, Hash)]
pub struct Fen {
    text: String,
}

impl View for Fen {
    type V = Seq<char>;

    closed spec fn view(&self) -> Seq<char> {
        self.text@
    }
}

impl Fen {
    /// Reads a position from `text`.
    pub fn parse(text: &str) -> (res: Result<Fen, shakmaty::fen::ParseFenError>)
        ensures
            match res {
                Ok(f) => fen_text(text@) == Some(f@),
                Err(_) => fen_text(text@) is None,
            },
    {
        match read_fen(text) {
            Ok(text) => Ok(Fen { text }),
            Err(e) => Err(e),
        }
    }

    /// The text of the position.
    pub fn as_str(&self) -> (res: &str)
        ensures
            res@ == self@,
    {
        self.text.as_str()
    }
}

} // verus!
