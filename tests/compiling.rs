use spellbook::compile::{compile_source, interpret_tokens_to_magic, ParseError};
use spellbook::lexer::{parse_tokens, tokenize, Keyword, Literal, Token};
use spellbook::magic::{MagicRank, MagicType};

fn words(ws: &[&str]) -> Vec<String> {
    ws.iter().map(|w| w.to_string()).collect()
}

fn err_of(text: &str) -> ParseError {
    compile_source(text).unwrap_err()
}

#[test]
fn round_trip_single_magic() {
    let ms = compile_source("register Fire\nrank 2\ntype CHAOS\nrace_mult 1.5").unwrap();
    assert_eq!(ms.len(), 1);
    let m = &ms[0];
    assert_eq!(m.name, "Fire");
    assert_eq!(m.rank, MagicRank::Epic);
    assert_eq!(m.typ, MagicType::CHAOS);
    assert!(!m.always_def);
    assert_eq!(m.table_addon, 0);
    assert_eq!(m.race_mult, "1.5");
    assert_eq!(m.race_mult.parse::<f64>().unwrap(), 1.5);
}

#[test]
fn defaults_of_a_bare_register() {
    let ms = compile_source("register Ice").unwrap();
    assert_eq!(ms.len(), 1);
    assert_eq!(ms[0].name, "Ice");
    assert_eq!(ms[0].rank, MagicRank::Common);
    assert_eq!(ms[0].typ, MagicType::ORDER);
    assert!(!ms[0].always_def);
    assert_eq!(ms[0].table_addon, 0);
    assert_eq!(ms[0].race_mult, "1.0");
}

#[test]
fn attribute_before_register_fails() {
    assert_eq!(err_of("rank 1"), ParseError::NoRegisteredMagic);
    assert_eq!(err_of("{ type CHAOS register a"), ParseError::NoRegisteredMagic);
}

#[test]
fn register_at_end_is_out_of_bounds() {
    assert_eq!(err_of("register"), ParseError::OutOfBounds);
    assert_eq!(err_of("register a rank"), ParseError::OutOfBounds);
}

#[test]
fn wrong_value_kinds_fail() {
    assert_eq!(err_of("register 5"), ParseError::ExpectedName);
    assert_eq!(err_of("register a rank x"), ParseError::ExpectedInt);
    assert_eq!(err_of("register a table_addon 1.5"), ParseError::ExpectedInt);
    assert_eq!(err_of("register a type 3"), ParseError::ExpectedCustomIdentifier);
    assert_eq!(err_of("register a always_def 1"), ParseError::ExpectedBool);
    assert_eq!(err_of("register a race_mult 2"), ParseError::ExpectedFloat);
}

#[test]
fn first_error_wins_and_nothing_partial() {
    assert_eq!(err_of("register a rank 1 register 7 rank x"), ParseError::ExpectedName);
}

#[test]
fn last_write_wins_and_order_kept() {
    let text = "register a rank 1 rank 3 always_def true\nregister b table_addon -4 race_mult 2e1 type CHAOS";
    let ms = compile_source(text).unwrap();
    assert_eq!(ms.len(), 2);
    assert_eq!(ms[0].name, "a");
    assert_eq!(ms[0].rank, MagicRank::Legendary);
    assert!(ms[0].always_def);
    assert_eq!(ms[1].name, "b");
    assert_eq!(ms[1].table_addon, -4);
    assert_eq!(ms[1].race_mult, "2e1");
    assert_eq!(ms[1].typ, MagicType::CHAOS);
}

#[test]
fn braces_and_stray_words_are_skipped() {
    let ms = compile_source("register a { rank 9 stray 12 true } rank 5").unwrap();
    assert_eq!(ms.len(), 1);
    assert_eq!(ms[0].rank, MagicRank::Divine);
}

#[test]
fn out_of_range_rank_is_common() {
    let ms = compile_source("register a rank 4 rank 17").unwrap();
    assert_eq!(ms[0].rank, MagicRank::Common);
}

#[test]
fn empty_text_has_no_magic() {
    assert_eq!(compile_source("").unwrap().len(), 0);
}

#[test]
fn classification_priority() {
    let ts = parse_tokens(&words(&[
        "register", "{", "}", "ORDER", "CHAOS", "true", "false", "-12", "+7", "1.5", "Fire",
    ]));
    assert_eq!(
        ts,
        vec![
            Token::Keyword(Keyword::Register),
            Token::Keyword(Keyword::BlockStart),
            Token::Keyword(Keyword::BlockEnd),
            Token::Value(Literal::Custom(MagicType::ORDER)),
            Token::Value(Literal::Custom(MagicType::CHAOS)),
            Token::Value(Literal::Bool(true)),
            Token::Value(Literal::Bool(false)),
            Token::Value(Literal::Int(-12)),
            Token::Value(Literal::Int(7)),
            Token::Value(Literal::Float("1.5".to_string())),
            Token::Name("Fire".to_string()),
        ]
    );
}

#[test]
fn keywords_are_case_sensitive() {
    let ts = parse_tokens(&words(&["Register", "True", "order"]));
    assert_eq!(
        ts,
        vec![
            Token::Name("Register".to_string()),
            Token::Name("True".to_string()),
            Token::Name("order".to_string()),
        ]
    );
}

#[test]
fn integer_limits() {
    let ts = parse_tokens(&words(&[
        "9223372036854775807",
        "-9223372036854775808",
        "9223372036854775808",
        "-",
        "",
    ]));
    assert_eq!(ts[0], Token::Value(Literal::Int(i64::MAX)));
    assert_eq!(ts[1], Token::Value(Literal::Int(i64::MIN)));
    assert_eq!(ts[2], Token::Value(Literal::Float("9223372036854775808".to_string())));
    assert_eq!(ts[3], Token::Name("-".to_string()));
    assert_eq!(ts[4], Token::Name("".to_string()));
}

#[test]
fn float_literal_forms_match_std() {
    let samples = [
        "1.5", ".5", "5.", "1e5", "1E-3", "-2.5e+7", "inf", "-Infinity", "NaN", "+nan", ".", "e5",
        "1.2.3", "1e", "1e+", "infin", "0x10", "1_000", "--1",
    ];
    for s in samples {
        let ts = parse_tokens(&words(&[s]));
        let std_float = s.parse::<i64>().is_err() && s.parse::<f64>().is_ok();
        let ours = matches!(ts[0], Token::Value(Literal::Float(_)));
        assert_eq!(ours, std_float, "{}", s);
    }
}

#[test]
fn tokenize_splits_on_whitespace_runs() {
    let ts = tokenize("register\t Fire\n\nrank  2");
    assert_eq!(
        ts,
        vec![
            Token::Keyword(Keyword::Register),
            Token::Name("Fire".to_string()),
            Token::Keyword(Keyword::Rank),
            Token::Value(Literal::Int(2)),
        ]
    );
}

#[test]
fn tokenize_keeps_edge_pieces() {
    let ts = tokenize(" rank ");
    assert_eq!(
        ts,
        vec![
            Token::Name("".to_string()),
            Token::Keyword(Keyword::Rank),
            Token::Name("".to_string()),
        ]
    );
}

#[test]
fn interpret_prepared_tokens() {
    let ts = vec![
        Token::Keyword(Keyword::Register),
        Token::Name("x".to_string()),
        Token::Keyword(Keyword::AlwaysDef),
        Token::Value(Literal::Bool(true)),
    ];
    let ms = interpret_tokens_to_magic(&ts).unwrap();
    assert_eq!(ms.len(), 1);
    assert!(ms[0].always_def);
}

#[test]
fn error_messages_are_readable() {
    assert_eq!(ParseError::OutOfBounds.message(), "Out of bounds!");
    assert_eq!(ParseError::NoRegisteredMagic.message(), "No registered magics!");
}
