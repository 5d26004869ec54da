use std::collections::HashMap;

use remote_uci::chess::UciMove;
use remote_uci::types::{
    ErrorKind, Eval, MultiPv, Refutations, Score, UciOption, UciOptionName, UciOut,
};

fn mv(text: &str) -> UciMove {
    UciMove::parse(text).unwrap()
}

fn answer(line: &str) -> UciOut {
    UciOut::from_line(line).unwrap().unwrap()
}

fn answer_error(line: &str) -> ErrorKind {
    UciOut::from_line(line).unwrap_err().kind()
}

fn refutations(lines: Vec<(UciMove, Vec<UciMove>)>) -> Refutations {
    let mut r = Refutations::new();
    for (k, v) in lines {
        r.insert(k, v);
    }
    r
}

fn empty_info() -> UciOut {
    UciOut::Info {
        multipv: None,
        depth: None,
        seldepth: None,
        time: None,
        nodes: None,
        pv: None,
        score: None,
        currmove: None,
        currmovenumber: None,
        hashfull: None,
        nps: None,
        tbhits: None,
        sbhits: None,
        cpuload: None,
        refutation: Refutations::new(),
        currline: HashMap::new(),
        string: None,
    }
}

#[test]
fn id_answers() {
    assert_eq!(answer("id name Stockfish 16"), UciOut::IdName("Stockfish 16".to_owned()));
    assert_eq!(answer("id  author\tthe  authors "), UciOut::IdAuthor("the  authors ".to_owned()));
    assert_eq!(answer_error("id"), ErrorKind::UnexpectedEndOfLine);
    assert_eq!(answer_error("id version 3"), ErrorKind::UnexpectedToken);
    assert_eq!(answer_error("id name"), ErrorKind::UnexpectedEndOfLine);
}

#[test]
fn short_answers() {
    assert_eq!(answer("uciok"), UciOut::Uciok);
    assert_eq!(answer(" readyok "), UciOut::Readyok);
    assert_eq!(UciOut::from_line("\t").unwrap(), None);
    assert_eq!(answer_error("copyprotection ok"), ErrorKind::UnexpectedToken);
    assert_eq!(answer_error("readyok\r\n"), ErrorKind::UnexpectedLineBreak);
}

#[test]
fn bestmove_answers() {
    assert_eq!(
        answer("bestmove e2e4 ponder e7e5"),
        UciOut::Bestmove { m: Some(mv("e2e4")), ponder: Some(mv("e7e5")) }
    );
    assert_eq!(answer("bestmove (none)"), UciOut::Bestmove { m: None, ponder: None });
    assert_eq!(answer("bestmove"), UciOut::Bestmove { m: None, ponder: None });
    assert_eq!(
        answer("bestmove a7a8n ponder (none)"),
        UciOut::Bestmove { m: Some(mv("a7a8n")), ponder: None }
    );
    assert_eq!(
        answer("bestmove e1g1 ponder"),
        UciOut::Bestmove { m: Some(mv("e1g1")), ponder: None }
    );
    assert_eq!(answer_error("bestmove e2e4 draw"), ErrorKind::UnexpectedToken);
    assert_eq!(answer_error("bestmove castle"), ErrorKind::InvalidMove);
    assert_eq!(answer_error("bestmove e2e4 ponder x"), ErrorKind::InvalidMove);
}

#[test]
fn info_answer_fields() {
    let expected = UciOut::Info {
        multipv: MultiPv::new(2),
        depth: Some(10),
        seldepth: Some(12),
        time: Some(200),
        nodes: Some(1000),
        pv: Some(vec![mv("e2e4"), mv("e7e5")]),
        score: Some(Score { eval: Eval::Cp(25), lowerbound: true, upperbound: false }),
        currmove: Some(mv("g1f3")),
        currmovenumber: Some(3),
        hashfull: Some(500),
        nps: Some(5000),
        tbhits: Some(7),
        sbhits: Some(8),
        cpuload: Some(900),
        refutation: Refutations::new(),
        currline: HashMap::new(),
        string: Some("hello  world".to_owned()),
    };
    assert_eq!(
        answer("info depth 10 seldepth 12 multipv 2 score cp 25 lowerbound nodes 1000 nps 5000 time 200 pv e2e4 e7e5 currmove g1f3 currmovenumber 3 hashfull 500 tbhits 7 sbhits 8 cpuload 900 string hello  world"),
        expected
    );
    assert_eq!(answer("info"), empty_info());
}

#[test]
fn info_score_bounds_in_any_order() {
    let mut expected = empty_info();
    if let UciOut::Info { score, depth, .. } = &mut expected {
        *score = Some(Score { eval: Eval::Mate(-3), lowerbound: true, upperbound: true });
        *depth = Some(4);
    }
    assert_eq!(answer("info score mate -3 upperbound lowerbound depth 4"), expected);
}

#[test]
fn info_lines_keep_last_value() {
    let mut expected = empty_info();
    if let UciOut::Info { refutation, currline, .. } = &mut expected {
        *refutation = refutations(vec![(mv("d1h5"), vec![mv("g6h5")]), (mv("e2e4"), vec![])]);
        *currline = HashMap::from([(1, vec![mv("e2e4"), mv("e7e5")]), (2, vec![mv("c2c4")])]);
    }
    assert_eq!(
        answer("info refutation d1h5 g7g6 refutation e2e4 currline 1 e2e4 e7e5 currline 2 d2d4 refutation d1h5 g6h5 currline 2 c2c4"),
        expected
    );
}

#[test]
fn info_string_may_be_empty() {
    let mut expected = empty_info();
    if let UciOut::Info { string, .. } = &mut expected {
        *string = Some(String::new());
    }
    assert_eq!(answer("info string"), expected);
    assert_eq!(answer("info string   "), expected);
}

#[test]
fn info_errors() {
    assert_eq!(answer_error("info multipv 0"), ErrorKind::InvalidInteger);
    assert_eq!(answer_error("info depth"), ErrorKind::UnexpectedEndOfLine);
    assert_eq!(answer_error("info time -5"), ErrorKind::InvalidInteger);
    assert_eq!(answer_error("info score"), ErrorKind::UnexpectedEndOfLine);
    assert_eq!(answer_error("info score wdl 1 2 3"), ErrorKind::UnexpectedToken);
    assert_eq!(answer_error("info score cp"), ErrorKind::UnexpectedEndOfLine);
    assert_eq!(answer_error("info score mate 2147483648"), ErrorKind::InvalidInteger);
    assert_eq!(answer_error("info currmove"), ErrorKind::UnexpectedEndOfLine);
    assert_eq!(answer_error("info currmove z9"), ErrorKind::InvalidMove);
    assert_eq!(answer_error("info refutation"), ErrorKind::UnexpectedEndOfLine);
    assert_eq!(answer_error("info currline x"), ErrorKind::InvalidInteger);
    assert_eq!(answer_error("info depth 3 speed 9"), ErrorKind::UnexpectedToken);
}

#[test]
fn option_answers() {
    assert_eq!(
        answer("option name Hash type spin default 16 min 1 max 33554432"),
        UciOut::Option {
            name: UciOptionName("Hash".to_owned()),
            option: UciOption::Spin { default: 16, min: 1, max: 33554432 },
        }
    );
    assert_eq!(
        answer("option name Ponder type check default false"),
        UciOut::Option {
            name: UciOptionName("ponder".to_owned()),
            option: UciOption::Check { default: false },
        }
    );
    assert_eq!(
        answer("option name Style type combo default Normal var Solid var Normal var Risky"),
        UciOut::Option {
            name: UciOptionName("Style".to_owned()),
            option: UciOption::Combo {
                default: "Normal".to_owned(),
                var: vec!["Solid".to_owned(), "Normal".to_owned(), "Risky".to_owned()],
            },
        }
    );
    assert_eq!(
        answer("option name Clear Hash type button"),
        UciOut::Option { name: UciOptionName("Clear Hash".to_owned()), option: UciOption::Button }
    );
    assert_eq!(
        answer("option name Debug Log File type string default"),
        UciOut::Option {
            name: UciOptionName("Debug Log File".to_owned()),
            option: UciOption::String { default: String::new() },
        }
    );
    assert_eq!(
        answer("option name Book type string default my book.bin"),
        UciOut::Option {
            name: UciOptionName("Book".to_owned()),
            option: UciOption::String { default: "my book.bin".to_owned() },
        }
    );
}

#[test]
fn option_errors() {
    assert_eq!(answer_error("option"), ErrorKind::UnexpectedEndOfLine);
    assert_eq!(answer_error("option Hash"), ErrorKind::UnexpectedToken);
    assert_eq!(answer_error("option name"), ErrorKind::UnexpectedEndOfLine);
    assert_eq!(answer_error("option name Hash"), ErrorKind::UnexpectedEndOfLine);
    assert_eq!(answer_error("option name Hash type slider"), ErrorKind::UnexpectedToken);
    assert_eq!(answer_error("option name Hash type spin default 1 min 0"), ErrorKind::UnexpectedEndOfLine);
    assert_eq!(answer_error("option name Hash type spin default one"), ErrorKind::InvalidInteger);
    assert_eq!(answer_error("option name Hash type spin step 2"), ErrorKind::UnexpectedToken);
    assert_eq!(answer_error("option name X type check default maybe"), ErrorKind::UnexpectedToken);
    assert_eq!(answer_error("option name X type check"), ErrorKind::UnexpectedEndOfLine);
    assert_eq!(answer_error("option name X type button now"), ErrorKind::ExpectedEndOfLine);
    assert_eq!(answer_error("option name X type combo var a"), ErrorKind::UnexpectedEndOfLine);
    assert_eq!(answer_error("option name X type combo default"), ErrorKind::UnexpectedEndOfLine);
    assert_eq!(answer_error("option name X type string"), ErrorKind::UnexpectedEndOfLine);
    assert_eq!(answer_error("option name X type string value"), ErrorKind::UnexpectedToken);
}

#[test]
fn answer_lines_as_written() {
    assert_eq!(UciOut::IdName("Engine 1".to_owned()).to_uci_string(), "id name Engine 1");
    assert_eq!(UciOut::Readyok.to_uci_string(), "readyok");
    assert_eq!(UciOut::Bestmove { m: None, ponder: None }.to_uci_string(), "bestmove (none)");
    assert_eq!(
        UciOut::Bestmove { m: Some(mv("e2e4")), ponder: Some(mv("c7c5")) }.to_uci_string(),
        "bestmove e2e4 ponder c7c5"
    );
    let mut info = empty_info();
    if let UciOut::Info { depth, score, pv, refutation, currline, string, .. } = &mut info {
        *depth = Some(20);
        *score = Some(Score { eval: Eval::Mate(-2), lowerbound: false, upperbound: true });
        *pv = Some(vec![mv("e2e4")]);
        *refutation = refutations(vec![(mv("d1h5"), vec![mv("g7g6")])]);
        *currline = HashMap::from([(1, vec![])]);
        *string = Some("done".to_owned());
    }
    assert_eq!(
        info.to_uci_string(),
        "info depth 20 pv e2e4 score mate -2 upperbound refutation d1h5 g7g6 currline 1 string done"
    );
    assert_eq!(empty_info().to_uci_string(), "info");
    assert_eq!(
        UciOut::Option {
            name: UciOptionName("Hash".to_owned()),
            option: UciOption::Spin { default: -1, min: i64::MIN, max: i64::MAX },
        }
        .to_uci_string(),
        "option name Hash type spin default -1 min -9223372036854775808 max 9223372036854775807"
    );
    assert_eq!(
        UciOut::Option {
            name: UciOptionName("Style".to_owned()),
            option: UciOption::Combo { default: "a".to_owned(), var: vec!["a".to_owned(), "b c".to_owned()] },
        }
        .to_uci_string(),
        "option name Style type combo default a var a var b c"
    );
}

#[test]
fn written_answers_read_back() {
    let mut info = empty_info();
    if let UciOut::Info { multipv, time, pv, score, currmove, refutation, currline, string, .. } = &mut info {
        *multipv = MultiPv::new(1);
        *time = Some(0);
        *pv = Some(vec![mv("e2e4"), mv("e7e5")]);
        *score = Some(Score { eval: Eval::Cp(-40), lowerbound: true, upperbound: true });
        *currmove = Some(mv("b1c3"));
        *refutation = refutations(vec![(mv("d1h5"), vec![mv("g7g6")]), (mv("e2e4"), vec![])]);
        *currline = HashMap::from([(2, vec![mv("e2e4")]), (0, vec![]), (7, vec![mv("a2a4"), mv("h7h5")])]);
        *string = Some("line with  spaces".to_owned());
    }
    let answers = vec![
        UciOut::IdName("My Engine".to_owned()),
        UciOut::IdAuthor("Someone".to_owned()),
        UciOut::Uciok,
        UciOut::Readyok,
        UciOut::Bestmove { m: Some(mv("e7e8q")), ponder: Some(mv("a2a1")) },
        UciOut::Bestmove { m: None, ponder: None },
        info,
        UciOut::Option { name: UciOptionName("Threads".to_owned()), option: UciOption::Spin { default: 1, min: 1, max: 512 } },
        UciOut::Option { name: UciOptionName("Ponder".to_owned()), option: UciOption::Check { default: true } },
        UciOut::Option {
            name: UciOptionName("Play Style".to_owned()),
            option: UciOption::Combo { default: "Normal".to_owned(), var: vec!["Solid".to_owned(), "Normal".to_owned()] },
        },
        UciOut::Option { name: UciOptionName("Clear Hash".to_owned()), option: UciOption::Button },
        UciOut::Option { name: UciOptionName("Path".to_owned()), option: UciOption::String { default: "/a b".to_owned() } },
    ];
    for a in answers {
        assert_eq!(UciOut::from_line(&a.to_uci_string()).unwrap(), Some(a));
    }
}

#[test]
fn refutation_given_again_replaces_in_place() {
    let mut r = Refutations::new();
    r.insert(mv("d1h5"), vec![mv("g7g6")]);
    r.insert(mv("e2e4"), vec![]);
    r.insert(mv("d1h5"), vec![mv("g6h5")]);
    let lines = r.lines();
    assert_eq!(lines.len(), 2);
    assert_eq!(lines[0].0.as_str(), "d1h5");
    assert_eq!(lines[0].1[0].as_str(), "g6h5");
    assert_eq!(lines[1].0.as_str(), "e2e4");
    assert_eq!(r.clone(), r);
}

#[test]
fn multipv_is_never_zero() {
    assert!(MultiPv::new(0).is_none());
    assert_eq!(MultiPv::new(3).unwrap().get(), 3);
}
