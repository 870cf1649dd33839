use hhat_lang::parser::{parse_fn_program, Expected};

#[test]
fn parses_identifier_list() {
    assert_eq!(
        parse_fn_program("[a b Ac x0]"),
        Ok(vec!["a".to_owned(), "b".to_owned(), "Ac".to_owned(), "x0".to_owned()])
    );
}

#[test]
fn parses_other_separators() {
    assert_eq!(
        parse_fn_program("[a;b,\tc\n d]"),
        Ok(vec!["a".to_owned(), "b".to_owned(), "c".to_owned(), "d".to_owned()])
    );
    assert_eq!(parse_fn_program("[]"), Ok(vec![]));
}

#[test]
fn rejects_malformed_lists() {
    assert_eq!(parse_fn_program("a b]").unwrap_err().expected, Expected::OpenBracket);
    assert_eq!(parse_fn_program("").unwrap_err().expected, Expected::OpenBracket);
    assert_eq!(parse_fn_program("[a b").unwrap_err().expected, Expected::CloseBracket);
    assert_eq!(parse_fn_program("[a 1b]").unwrap_err().expected, Expected::Identifier);
    assert_eq!(parse_fn_program("[a 1b]").unwrap_err().offset, 3);
    assert!(parse_fn_program("[ a]").is_err());
    assert!(parse_fn_program("[a ]").is_err());
    assert!(parse_fn_program("[a-b]").is_err());
    assert_eq!(parse_fn_program("[a ]").unwrap_err().offset, 3);
    assert_eq!(parse_fn_program("[a ]").unwrap_err().expected, Expected::CloseBracket);
    assert_eq!(parse_fn_program("[a b").unwrap_err().offset, 4);
    assert_eq!(parse_fn_program("x").unwrap_err().offset, 0);
    assert_eq!(parse_fn_program("[ab 9]").unwrap_err().offset, 4);
}
