use remote_uci::parser::Parser;
use remote_uci::tokens::{read, read_until};
use remote_uci::types::{ProtocolError, UciIn, UciOptionName, UciOptionValue};

#[test]
fn test_read() {
    assert_eq!(read(""), (None, ""));
    assert_eq!(read(" abc\t def g"), (Some("abc"), "\t def g"));
    assert_eq!(read("  end"), (Some("end"), ""));
}

#[test]
fn test_read_until() {
    assert_eq!(
        read_until("abc def value foo", &["value"]),
        (Some("abc def"), " value foo")
    );
    assert_eq!(
        read_until("abc def valuefoo", &["value"]),
        (Some("abc def valuefoo"), "")
    );
    assert_eq!(
        read_until("value abc", &["value"]),
        (Some("value abc"), "")
    );
}

#[test]
fn test_setoption() -> Result<(), ProtocolError> {
    assert_eq!(
        UciIn::from_line("setoption name Skill Level value 10")?,
        Some(UciIn::Setoption {
            name: UciOptionName("skill level".to_owned()),
            value: Some(UciOptionValue("10".to_owned()))
        })
    );

    assert_eq!(
        UciIn::from_line("setoption name Clear Hash")?,
        Some(UciIn::Setoption {
            name: UciOptionName("clEAR haSH".to_owned()),
            value: None
        })
    );

    Ok(())
}

#[test]
fn parser_reads_tokens_in_order() {
    let mut p = Parser::new("go  wtime 100").unwrap();
    assert_eq!(p.peek(), Some("go"));
    assert_eq!(p.next(), Some("go"));
    assert_eq!(p.next(), Some("wtime"));
    assert!(p.end().is_err());
    assert_eq!(p.parse_millis().unwrap(), 100);
    assert!(p.end().is_ok());
    assert_eq!(p.next(), None);
}
