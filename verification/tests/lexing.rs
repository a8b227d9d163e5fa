use alabasta::lexer::{characters, lexeme_from_string, Lexeme, Lexer, Token};

fn token(token_type: Lexeme, char_start: usize, char_end: usize) -> Token {
    Token { token_type, line_number: 0, char_start, char_end }
}

fn identifier(name: &str) -> Lexeme {
    Lexeme::Identifier(name.to_string())
}

fn operator(symbol: &str) -> Lexeme {
    Lexeme::BinaryOperator(symbol.to_string())
}

fn scan(source: &str) -> Result<Vec<Token>, String> {
    Lexer::new(source.to_string()).scan()
}

fn kinds(source: &str) -> Vec<Lexeme> {
    scan(source).unwrap().into_iter().map(|token| token.token_type).collect()
}

#[test]
fn empty_input_has_no_tokens() {
    assert_eq!(scan(""), Ok(vec![]));
    assert_eq!(scan("  \t\n "), Ok(vec![]));
}

#[test]
fn tokens_carry_their_positions() {
    assert_eq!(
        scan("\\x. x1 + 42"),
        Ok(vec![
            token(Lexeme::Lambda, 0, 1),
            token(identifier("x"), 1, 2),
            token(Lexeme::Dot, 2, 3),
            token(identifier("x1"), 4, 6),
            token(operator("+"), 7, 8),
            token(Lexeme::Integer(42), 9, 11),
        ])
    );
}

#[test]
fn every_single_character_token_is_recognised() {
    assert_eq!(
        kinds("+ - * / % \\ ^ . ( ) , ="),
        vec![
            operator("+"),
            operator("-"),
            operator("*"),
            operator("/"),
            operator("%"),
            Lexeme::Lambda,
            Lexeme::Lambda,
            Lexeme::Dot,
            Lexeme::LeftParen,
            Lexeme::RightParen,
            Lexeme::Comma,
            Lexeme::Equals,
        ]
    );
}

#[test]
fn keywords_are_whole_words() {
    assert_eq!(
        kinds("let in letter inn Let"),
        vec![
            Lexeme::Let,
            Lexeme::In,
            identifier("letter"),
            identifier("inn"),
            identifier("Let"),
        ]
    );
}

#[test]
fn an_underscore_cannot_start_a_word() {
    assert_eq!(scan("_x"), Err("Unexpected symbol encountered!".to_string()));
}

#[test]
fn words_may_hold_digits_and_underscores() {
    assert_eq!(kinds("add_2 x9y"), vec![identifier("add_2"), identifier("x9y")]);
}

#[test]
fn a_number_ends_where_the_digits_end() {
    assert_eq!(
        scan("12ab"),
        Ok(vec![token(Lexeme::Integer(12), 0, 2), token(identifier("ab"), 2, 4)])
    );
}

#[test]
fn leading_zeros_count_for_nothing() {
    assert_eq!(kinds("007 0"), vec![Lexeme::Integer(7), Lexeme::Integer(0)]);
}

#[test]
fn the_largest_integer_is_accepted() {
    assert_eq!(kinds("9223372036854775807"), vec![Lexeme::Integer(i64::MAX)]);
}

#[test]
fn an_integer_out_of_range_is_rejected() {
    assert_eq!(
        scan("9223372036854775808"),
        Err("Integer literal out of range!".to_string())
    );
    assert_eq!(
        scan("1 + 99999999999999999999999999"),
        Err("Integer literal out of range!".to_string())
    );
}

#[test]
fn an_unexpected_symbol_is_rejected() {
    assert_eq!(scan("x ? y"), Err("Unexpected symbol encountered!".to_string()));
    assert_eq!(scan("x\ry"), Err("Unexpected symbol encountered!".to_string()));
    assert_eq!(scan("@x0"), Err("Unexpected symbol encountered!".to_string()));
}

#[test]
fn the_scan_ends_at_a_character_outside_ascii() {
    assert_eq!(scan("x \u{3bb} y"), Ok(vec![token(identifier("x"), 0, 1)]));
    assert_eq!(scan("ab\u{e9}cd"), Ok(vec![token(identifier("ab"), 0, 2)]));
    assert_eq!(scan("x \0 ?"), Ok(vec![token(identifier("x"), 0, 1)]));
}

#[test]
fn a_second_scan_finds_nothing_more() {
    let mut lexer = Lexer::new("a b".to_string());
    assert_eq!(lexer.scan().map(|tokens| tokens.len()), Ok(2));
    assert_eq!(lexer.scan(), Ok(vec![]));
}

#[test]
fn lexers_compare_by_text_and_position() {
    let mut scanned = Lexer::new("a".to_string());
    assert_eq!(scanned, Lexer::new("a".to_string()));
    scanned.scan().unwrap();
    assert_ne!(scanned, Lexer::new("a".to_string()));
}

#[test]
fn lexeme_from_string_recognises_every_kind() {
    assert_eq!(lexeme_from_string("+".to_string()), operator("+"));
    assert_eq!(lexeme_from_string("-".to_string()), operator("-"));
    assert_eq!(lexeme_from_string("*".to_string()), operator("*"));
    assert_eq!(lexeme_from_string("/".to_string()), operator("/"));
    assert_eq!(lexeme_from_string("%".to_string()), operator("%"));
    assert_eq!(lexeme_from_string("\\".to_string()), Lexeme::Lambda);
    assert_eq!(lexeme_from_string("^".to_string()), Lexeme::Lambda);
    assert_eq!(lexeme_from_string(".".to_string()), Lexeme::Dot);
    assert_eq!(lexeme_from_string("(".to_string()), Lexeme::LeftParen);
    assert_eq!(lexeme_from_string(")".to_string()), Lexeme::RightParen);
    assert_eq!(lexeme_from_string(",".to_string()), Lexeme::Comma);
    assert_eq!(lexeme_from_string("=".to_string()), Lexeme::Equals);
    assert_eq!(lexeme_from_string("let".to_string()), Lexeme::Let);
    assert_eq!(lexeme_from_string("in".to_string()), Lexeme::In);
    assert_eq!(lexeme_from_string("1234".to_string()), Lexeme::Integer(1234));
    assert_eq!(lexeme_from_string("0012".to_string()), Lexeme::Integer(12));
    assert_eq!(lexeme_from_string("double".to_string()), identifier("double"));
    assert_eq!(lexeme_from_string("_x".to_string()), identifier("_x"));
    assert_eq!(lexeme_from_string("9a".to_string()), identifier("9a"));
    assert_eq!(lexeme_from_string("lets".to_string()), identifier("lets"));
}

#[test]
fn characters_lists_the_text() {
    assert_eq!(characters("a\u{3bb}1"), vec!['a', '\u{3bb}', '1']);
    assert_eq!(characters(""), Vec::<char>::new());
}

#[test]
fn cloned_tokens_are_equal() {
    let first = token(identifier("x"), 3, 4);
    assert_eq!(first.clone(), first);
    assert_eq!(Lexeme::Integer(5).clone(), Lexeme::Integer(5));
}
