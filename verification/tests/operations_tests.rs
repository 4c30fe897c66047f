use chat::commands::{classify_input, CommandError, InputKind};
use chat::csv::csv;
use chat::operations::{
    crabify, lowercase, no_spaces, parse_arguments, parse_line, slugify, transtext, unchanged,
    uppercase, Input, OpError,
};
use chat::strutil::trim;
use chat::Operation;

#[test]
fn test_lowercase() {
    assert_eq!(lowercase("  HeLLo WoRLD \n").unwrap(), "hello world");
}

#[test]
fn test_uppercase() {
    assert_eq!(uppercase("  HeLLo WoRLD \n").unwrap(), "HELLO WORLD");
}

#[test]
fn test_no_spaces() {
    assert_eq!(no_spaces("  a b  c \n").unwrap(), "abc");
    assert_eq!(no_spaces("nospace").unwrap(), "nospace");
}

#[test]
fn test_slugify_op() {
    assert_eq!(slugify(" Hello World!\n").unwrap(), "hello-world");
}

#[test]
fn test_unchanged() {
    assert_eq!(unchanged("  as it is \n").unwrap(), "as it is");
}

#[test]
fn test_crabify() {
    assert_eq!(crabify(" ab \n").unwrap(), "\u{1f980}\u{1f980}");
    assert_eq!(crabify("   ").unwrap(), "");
}

#[test]
fn test_trim() {
    assert_eq!(trim("  x y\t\n"), "x y");
    assert_eq!(trim("\u{a0}padded\u{3000}"), "padded");
    assert_eq!(trim("   "), "");
}

#[test]
fn test_operation_from_str() {
    assert!(matches!(Operation::from_str("lowercase"), Ok(Operation::Lowercase)));
    assert!(matches!(Operation::from_str("uppercase"), Ok(Operation::Uppercase)));
    assert!(matches!(Operation::from_str("no-spaces"), Ok(Operation::NoSpaces)));
    assert!(matches!(Operation::from_str("slugify"), Ok(Operation::Slugify)));
    assert!(matches!(Operation::from_str("unchanged"), Ok(Operation::Unchanged)));
    assert!(matches!(Operation::from_str("crabify"), Ok(Operation::Crabify)));
    assert!(matches!(Operation::from_str("csv"), Ok(Operation::Csv)));
    assert!(matches!(
        Operation::from_str("sluggify"),
        Err(OpError::UnknownOperation)
    ));
}

#[test]
fn test_parse_arguments() {
    let args = vec!["transtext".to_string(), "LowerCase".to_string()];
    assert!(matches!(parse_arguments(args), Ok(Operation::Lowercase)));
    let none = vec!["transtext".to_string()];
    assert!(matches!(
        parse_arguments(none),
        Err(OpError::WrongArgumentCount { got: 0 })
    ));
    let extra = vec![
        "transtext".to_string(),
        "csv".to_string(),
        "more".to_string(),
    ];
    assert!(matches!(
        parse_arguments(extra),
        Err(OpError::WrongArgumentCount { got: 2 })
    ));
}

#[test]
fn test_parse_line() {
    let input = parse_line("uppercase make me loud").unwrap();
    assert!(matches!(input.command, Operation::Uppercase));
    assert_eq!(input.input, "make me loud");
    assert!(matches!(parse_line("nospace"), Err(OpError::InvalidInput)));
    assert!(matches!(
        parse_line("shout hello"),
        Err(OpError::UnknownOperation)
    ));
}

#[test]
fn test_transtext_dispatch() {
    let out = transtext(Input {
        command: Operation::Crabify,
        input: "ab".to_string(),
    })
    .unwrap();
    assert!(matches!(out.operation, Operation::Crabify));
    assert_eq!(out.result, "\u{1f980}\u{1f980}");
    let out = transtext(Input {
        command: Operation::Slugify,
        input: "Hello World".to_string(),
    })
    .unwrap();
    assert_eq!(out.result, "hello-world");
}

#[test]
fn test_csv_table() {
    let out = csv("a,b\nc,d").unwrap();
    assert_eq!(out, "+--+--+\n|a |b |\n+--+--+\n|c |d |\n+--+--+");
}

#[test]
fn test_csv_wider_columns() {
    let out = csv("name,age\nalice,30\nbob,7\n").unwrap();
    let expected = "+------+----+\n\
                    |name  |age |\n\
                    +------+----+\n\
                    |alice |30  |\n\
                    |bob   |7   |\n\
                    +------+----+";
    assert_eq!(out, expected);
}

#[test]
fn test_csv_missing_header() {
    assert!(matches!(csv(""), Err(OpError::MissingHeader)));
}

#[test]
fn test_csv_column_mismatch() {
    assert!(matches!(
        csv("a,b\nc"),
        Err(OpError::ColumnMismatch { expected: 2, got: 1 })
    ));
    assert!(matches!(
        csv("a\nb,c"),
        Err(OpError::ColumnMismatch { expected: 1, got: 2 })
    ));
}

#[test]
fn test_classify_input() {
    match classify_input(".file path_to_file.txt").unwrap() {
        InputKind::File { path } => assert_eq!(path, "path_to_file.txt"),
        _ => panic!("expected a file command"),
    }
    match classify_input(".image cat.png").unwrap() {
        InputKind::Image { path } => assert_eq!(path, "cat.png"),
        _ => panic!("expected an image command"),
    }
    assert!(matches!(classify_input(".quit"), Ok(InputKind::Quit)));
    match classify_input("just a message").unwrap() {
        InputKind::Text { text } => assert_eq!(text, "just a message"),
        _ => panic!("expected a text message"),
    }
    assert!(matches!(
        classify_input(".file"),
        Err(CommandError::InvalidFileCommand)
    ));
    assert!(matches!(
        classify_input(".image"),
        Err(CommandError::InvalidImageCommand)
    ));
}
