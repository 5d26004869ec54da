use remote_uci::chess::{Fen, UciMove};
use remote_uci::line_break::contains_line_break;
use remote_uci::numbers::{push_decimal, push_signed_decimal};
use remote_uci::parser::Parser;
use remote_uci::tokens::{is_separator, read, read_until};
use remote_uci::types::{
    eq_ignore_ascii_case, ErrorKind, Eval, Score, UciOption, UciOptionName, UciOptionValue,
};

#[test]
fn option_names_ignore_ascii_case() {
    let a = UciOptionName("Skill Level".to_owned());
    let b = UciOptionName("sKILL lEVEL".to_owned());
    let c = UciOptionName("SKILL LEVEL".to_owned());
    assert_eq!(a, a);
    assert_eq!(a, b);
    assert_eq!(b, a);
    assert_eq!(b, c);
    assert_eq!(a, c);
    assert_ne!(a, UciOptionName("Skill Levels".to_owned()));
    assert_ne!(a, UciOptionName("Skill_Level".to_owned()));
    assert_eq!(a.hash_input(), b.hash_input());
    assert_eq!(a.hash_input(), c.hash_input());
}

#[test]
fn option_name_hash_input_is_folded_bytes_and_end_mark() {
    let a = UciOptionName("Ab".to_owned());
    assert_eq!(a.hash_input(), vec![b'a', b'b', 0xff]);
    assert_eq!(UciOptionName(String::new()).hash_input(), vec![0xff]);
    let e = UciOptionName("É".to_owned());
    assert_eq!(e.hash_input(), vec![0xc3, 0x89, 0xff]);
}

#[test]
fn ascii_case_folding_leaves_other_characters() {
    assert!(eq_ignore_ascii_case("Hash", "hASH"));
    assert!(!eq_ignore_ascii_case("É", "é"));
    assert!(!eq_ignore_ascii_case("a", "ab"));
    assert!(eq_ignore_ascii_case("", ""));
}

#[test]
fn separators_are_space_and_tab() {
    assert!(is_separator(' '));
    assert!(is_separator('\t'));
    assert!(!is_separator('\n'));
    assert!(!is_separator('a'));
}

#[test]
fn read_splits_text_into_token_and_rest() {
    let s = " \t go  wtime";
    let (token, rest) = read(s);
    assert_eq!(token, Some("go"));
    assert_eq!(rest, "  wtime");
    assert!(s.ends_with(&format!("{}{}", token.unwrap(), rest)));
    assert_eq!(read("\t \t"), (None, ""));
    assert_eq!(read("é\tx"), (Some("é"), "\tx"));
}

#[test]
fn read_until_finds_first_stop_word() {
    assert_eq!(read_until("  a value b value c", &["value"]), (Some("a"), " value b value c"));
    assert_eq!(read_until("x y", &[]), (Some("x y"), ""));
    assert_eq!(read_until("   ", &["value"]), (None, ""));
    assert_eq!(
        read_until("Normal one var Solid", &["default", "var"]),
        (Some("Normal one"), " var Solid")
    );
    assert_eq!(read_until("a\tvar", &["default", "var"]), (Some("a"), "\tvar"));
}

#[test]
fn line_breaks_are_found() {
    assert!(contains_line_break("a\nb"));
    assert!(contains_line_break("\r"));
    assert!(!contains_line_break("a b\tc"));
    assert!(!contains_line_break(""));
}

#[test]
fn parser_new_refuses_line_breaks() {
    assert_eq!(Parser::new("go\r\n").err().unwrap().kind(), ErrorKind::UnexpectedLineBreak);
    assert!(Parser::new("go").is_ok());
}

#[test]
fn parser_until_and_moves() {
    let mut p = Parser::new("name Skill Level value 10").unwrap();
    assert_eq!(p.next(), Some("name"));
    assert_eq!(p.until(&["value"]), Some("Skill Level"));
    assert_eq!(p.next(), Some("value"));
    assert_eq!(p.until(&[]), Some("10"));
    assert_eq!(p.until(&[]), None);

    let mut p = Parser::new("e2e4 e7e5 depth 3").unwrap();
    let moves = p.parse_moves();
    assert_eq!(moves.len(), 2);
    assert_eq!(moves[0].as_str(), "e2e4");
    assert_eq!(moves[1].as_str(), "e7e5");
    assert_eq!(p.peek(), Some("depth"));
}

#[test]
fn parser_score() {
    let mut p = Parser::new("cp -15 lowerbound nodes 5").unwrap();
    assert_eq!(
        p.parse_score().unwrap(),
        Score { eval: Eval::Cp(-15), lowerbound: true, upperbound: false }
    );
    assert_eq!(p.next(), Some("nodes"));
    let mut p = Parser::new("mate").unwrap();
    assert_eq!(p.parse_score().unwrap_err().kind(), ErrorKind::UnexpectedEndOfLine);
}

#[test]
fn parser_millis_errors() {
    let mut p = Parser::new("").unwrap();
    assert_eq!(p.parse_millis().unwrap_err().kind(), ErrorKind::UnexpectedEndOfLine);
    let mut p = Parser::new("1.5").unwrap();
    assert_eq!(p.parse_millis().unwrap_err().kind(), ErrorKind::InvalidInteger);
}

#[test]
fn decimals_are_written_in_full() {
    let mut out = String::from("n=");
    push_decimal(&mut out, 0);
    assert_eq!(out, "n=0");
    let mut out = String::new();
    push_decimal(&mut out, u64::MAX);
    assert_eq!(out, "18446744073709551615");
    let mut out = String::new();
    push_signed_decimal(&mut out, i64::MIN);
    assert_eq!(out, "-9223372036854775808");
    let mut out = String::new();
    push_signed_decimal(&mut out, -7);
    assert_eq!(out, "-7");
}

#[test]
fn scores_and_evals_as_written() {
    assert_eq!(Eval::Cp(25).to_uci_string(), "cp 25");
    assert_eq!(Eval::Mate(-3).to_uci_string(), "mate -3");
    assert_eq!(
        Score { eval: Eval::Cp(0), lowerbound: true, upperbound: true }.to_uci_string(),
        "cp 0 lowerbound upperbound"
    );
    assert_eq!(UciOptionName("Hash".to_owned()).to_uci_string(), "Hash");
    assert_eq!(UciOptionValue("a b".to_owned()).to_uci_string(), "a b");
    assert_eq!(UciOption::Check { default: true }.to_uci_string(), "type check default true");
    assert_eq!(UciOption::Button.to_uci_string(), "type button");
    assert_eq!(UciOption::String { default: String::new() }.to_uci_string(), "type string default ");
}

#[test]
fn moves_are_held_as_shakmaty_writes_them() {
    assert_eq!(UciMove::parse("e2e4").unwrap().as_str(), "e2e4");
    assert_eq!(UciMove::parse("e7e8Q").unwrap().as_str(), "e7e8q");
    assert_eq!(UciMove::parse("p@e4").unwrap().as_str(), "P@e4");
    assert_eq!(UciMove::parse("0000").unwrap().as_str(), "0000");
    assert!(UciMove::parse("e2e").is_err());
    assert!(UciMove::parse("(none)").is_err());
    assert!(UciMove::parse("e7e8Q").unwrap().same_as(&UciMove::parse("e7e8q").unwrap()));
    assert!(!UciMove::parse("e2e4").unwrap().same_as(&UciMove::parse("e2e3").unwrap()));
}

#[test]
fn positions_are_held_as_shakmaty_writes_them() {
    let fen = Fen::parse("8/8/8/8/8/8/8/K6k w - -").unwrap();
    assert_eq!(fen.as_str(), "8/8/8/8/8/8/8/K6k w - - 0 1");
    assert!(Fen::parse("startpos").is_err());
}

#[test]
fn parser_gives_the_words_of_the_line_then_nothing() {
    let line = " \tgo  wtime\t100 infinite  ";
    let mut p = Parser::new(line).unwrap();
    let mut read = Vec::new();
    while let Some(t) = p.next() {
        read.push(t);
    }
    let words: Vec<&str> = line.split(|c| c == ' ' || c == '\t').filter(|w| !w.is_empty()).collect();
    assert_eq!(read, words);
    assert_eq!(p.next(), None);
    assert_eq!(p.next(), None);
}

#[test]
fn moves_are_read_as_shakmaty_reads_them() {
    assert_eq!(UciMove::parse("Q@e4x").unwrap().as_str(), "Q@e4");
    assert_eq!(UciMove::parse("a7a8").unwrap().as_str(), "a7a8");
    assert!(UciMove::parse("e2e4x").is_err());
    assert!(UciMove::parse("x@e4").is_err());
    assert!(UciMove::parse("i2i4").is_err());
    assert!(UciMove::parse("e2e9").is_err());
    assert!(UciMove::parse("winc").is_err());
    assert!(UciMove::parse("depth").is_err());
    assert!(UciMove::parse("nodes").is_err());
    assert!(UciMove::parse("Q@e4\u{e9}").is_err());
}
