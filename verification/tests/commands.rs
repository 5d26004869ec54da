use remote_uci::chess::{Fen, UciMove};
use remote_uci::types::{ErrorKind, UciIn, UciOptionName, UciOptionValue};

fn mv(text: &str) -> UciMove {
    UciMove::parse(text).unwrap()
}

fn command(line: &str) -> UciIn {
    UciIn::from_line(line).unwrap().unwrap()
}

fn command_error(line: &str) -> ErrorKind {
    UciIn::from_line(line).unwrap_err().kind()
}

fn go_with() -> UciIn {
    UciIn::Go {
        searchmoves: None,
        ponder: false,
        wtime: None,
        btime: None,
        winc: None,
        binc: None,
        movestogo: None,
        depth: None,
        nodes: None,
        mate: None,
        movetime: None,
        infinite: false,
    }
}

#[test]
fn commands_without_arguments() {
    assert_eq!(command("uci"), UciIn::Uci);
    assert_eq!(command("  isready\t"), UciIn::Isready);
    assert_eq!(command("ucinewgame"), UciIn::Ucinewgame);
    assert_eq!(command("stop"), UciIn::Stop);
    assert_eq!(command("ponderhit"), UciIn::Ponderhit);
}

#[test]
fn command_with_trailing_token_is_refused() {
    assert_eq!(command_error("uci now"), ErrorKind::ExpectedEndOfLine);
    assert_eq!(command_error("stop stop"), ErrorKind::ExpectedEndOfLine);
}

#[test]
fn blank_command_line_is_nothing() {
    assert_eq!(UciIn::from_line("").unwrap(), None);
    assert_eq!(UciIn::from_line(" \t  ").unwrap(), None);
}

#[test]
fn unknown_command_is_refused() {
    assert_eq!(command_error("quit"), ErrorKind::UnexpectedToken);
    assert_eq!(command_error("UCI"), ErrorKind::UnexpectedToken);
}

#[test]
fn command_line_break_is_refused() {
    assert_eq!(command_error("uci\n"), ErrorKind::UnexpectedLineBreak);
    assert_eq!(command_error("isready\r"), ErrorKind::UnexpectedLineBreak);
    assert_eq!(command_error("\n"), ErrorKind::UnexpectedLineBreak);
}

#[test]
fn setoption_errors() {
    assert_eq!(command_error("setoption"), ErrorKind::UnexpectedEndOfLine);
    assert_eq!(command_error("setoption Hash"), ErrorKind::UnexpectedToken);
    assert_eq!(command_error("setoption name"), ErrorKind::UnexpectedEndOfLine);
    assert_eq!(command_error("setoption name Hash value"), ErrorKind::UnexpectedEndOfLine);
    assert_eq!(command_error("setoption name Hash value  "), ErrorKind::UnexpectedEndOfLine);
}

#[test]
fn setoption_value_runs_to_end_of_line() {
    assert_eq!(
        command("setoption name Book File value  my book.bin "),
        UciIn::Setoption {
            name: UciOptionName("book file".to_owned()),
            value: Some(UciOptionValue("my book.bin ".to_owned())),
        }
    );
}

#[test]
fn position_startpos() {
    assert_eq!(
        command("position startpos"),
        UciIn::Position { fen: None, moves: vec![] }
    );
    assert_eq!(
        command("position startpos moves e2e4 e7e5 g1f3"),
        UciIn::Position { fen: None, moves: vec![mv("e2e4"), mv("e7e5"), mv("g1f3")] }
    );
    assert_eq!(
        command("position startpos moves"),
        UciIn::Position { fen: None, moves: vec![] }
    );
}

#[test]
fn position_errors() {
    assert_eq!(command_error("position"), ErrorKind::UnexpectedEndOfLine);
    assert_eq!(command_error("position startpos moves e2e4 nonsense"), ErrorKind::InvalidMove);
    assert_eq!(command_error("position startpos moves e2e9"), ErrorKind::InvalidMove);
    assert_eq!(command_error("position nowhere"), ErrorKind::InvalidFen);
}

#[test]
fn position_fen_text_is_read_with_its_keyword() {
    // The text up to `moves`, keyword included, goes to the position reader.
    assert_eq!(
        command_error("position fen rnbqkbnr/pppppppp/8/8/8/8/PPPPPPPP/RNBQKBNR w KQkq - 0 1"),
        ErrorKind::InvalidFen
    );
    let fen = Fen::parse("rnbqkbnr/pppppppp/8/8/8/8/PPPPPPPP/RNBQKBNR w KQkq - 0 1").unwrap();
    assert_eq!(
        command("position rnbqkbnr/pppppppp/8/8/8/8/PPPPPPPP/RNBQKBNR w KQkq - 0 1 moves e2e4"),
        UciIn::Position { fen: Some(fen), moves: vec![mv("e2e4")] }
    );
}

#[test]
fn go_reads_every_argument() {
    assert_eq!(
        command("go ponder wtime 100 btime 200 winc 1 binc 2 movestogo 30 depth 5 nodes 1000 mate 3 movetime 50 infinite"),
        UciIn::Go {
            searchmoves: None,
            ponder: true,
            wtime: Some(100),
            btime: Some(200),
            winc: Some(1),
            binc: Some(2),
            movestogo: Some(30),
            depth: Some(5),
            nodes: Some(1000),
            mate: Some(3),
            movetime: Some(50),
            infinite: true,
        }
    );
    assert_eq!(command("go"), go_with());
}

#[test]
fn go_searchmoves_stops_at_first_non_move() {
    let mut expected = go_with();
    if let UciIn::Go { searchmoves, infinite, .. } = &mut expected {
        *searchmoves = Some(vec![mv("e2e4"), mv("d2d4")]);
        *infinite = true;
    }
    assert_eq!(command("go searchmoves e2e4 d2d4 infinite"), expected);
}

#[test]
fn go_later_argument_replaces_earlier() {
    let mut expected = go_with();
    if let UciIn::Go { depth, .. } = &mut expected {
        *depth = Some(7);
    }
    assert_eq!(command("go depth 3 depth 7"), expected);
}

#[test]
fn go_errors() {
    assert_eq!(command_error("go depth"), ErrorKind::UnexpectedEndOfLine);
    assert_eq!(command_error("go wtime"), ErrorKind::UnexpectedEndOfLine);
    assert_eq!(command_error("go depth x"), ErrorKind::InvalidInteger);
    assert_eq!(command_error("go depth -1"), ErrorKind::InvalidInteger);
    assert_eq!(command_error("go movestogo 4294967296"), ErrorKind::InvalidInteger);
    assert_eq!(command_error("go wtime 18446744073709551616"), ErrorKind::InvalidInteger);
    assert_eq!(command_error("go fast"), ErrorKind::UnexpectedToken);
}

#[test]
fn go_accepts_plus_sign_and_largest_values() {
    let mut expected = go_with();
    if let UciIn::Go { wtime, depth, .. } = &mut expected {
        *wtime = Some(18446744073709551615);
        *depth = Some(12);
    }
    assert_eq!(command("go wtime 18446744073709551615 depth +12"), expected);
}

#[test]
fn command_lines_as_written() {
    assert_eq!(UciIn::Uci.to_uci_string(), "uci");
    assert_eq!(UciIn::Ponderhit.to_uci_string(), "ponderhit");
    assert_eq!(
        UciIn::Setoption {
            name: UciOptionName("Hash".to_owned()),
            value: Some(UciOptionValue("32".to_owned())),
        }
        .to_uci_string(),
        "setoption name Hash value 32"
    );
    assert_eq!(
        UciIn::Setoption { name: UciOptionName("Clear Hash".to_owned()), value: None }.to_uci_string(),
        "setoption name Clear Hash"
    );
    assert_eq!(
        UciIn::Position { fen: None, moves: vec![mv("e2e4"), mv("e7e5")] }.to_uci_string(),
        "position startpos moves  e2e4 e7e5"
    );
    assert_eq!(UciIn::Position { fen: None, moves: vec![] }.to_uci_string(), "position startpos");
    let fen = Fen::parse("8/8/8/8/8/8/8/K6k w - - 0 1").unwrap();
    assert_eq!(
        UciIn::Position { fen: Some(fen), moves: vec![] }.to_uci_string(),
        "position fen 8/8/8/8/8/8/8/K6k w - - 0 1"
    );
    let mut go = go_with();
    if let UciIn::Go { wtime, infinite, .. } = &mut go {
        *wtime = Some(100);
        *infinite = true;
    }
    assert_eq!(go.to_uci_string(), "go wtime 100 infinite");
    let mut go = go_with();
    if let UciIn::Go { searchmoves, ponder, mate, movetime, .. } = &mut go {
        *searchmoves = Some(vec![mv("a7a8q")]);
        *ponder = true;
        *mate = Some(2);
        *movetime = Some(0);
    }
    assert_eq!(go.to_uci_string(), "go searchmoves a7a8q ponder mate 2 movetime 0");
}

#[test]
fn written_commands_read_back() {
    let mut go = go_with();
    if let UciIn::Go { searchmoves, btime, nodes, infinite, .. } = &mut go {
        *searchmoves = Some(vec![mv("e2e4"), mv("g1f3")]);
        *btime = Some(4000);
        *nodes = Some(u64::MAX);
        *infinite = true;
    }
    let commands = vec![
        UciIn::Uci,
        UciIn::Isready,
        UciIn::Ucinewgame,
        UciIn::Stop,
        UciIn::Ponderhit,
        UciIn::Setoption {
            name: UciOptionName("Skill Level".to_owned()),
            value: Some(UciOptionValue("20".to_owned())),
        },
        UciIn::Setoption { name: UciOptionName("Clear Hash".to_owned()), value: None },
        UciIn::Position { fen: None, moves: vec![mv("e2e4"), mv("c7c5")] },
        UciIn::Position { fen: None, moves: vec![] },
        go,
        go_with(),
    ];
    for c in commands {
        assert_eq!(UciIn::from_line(&c.to_uci_string()).unwrap(), Some(c));
    }
}
