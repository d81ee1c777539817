use compiler::{scan, to_kind, to_string, Kind, ScanError, Token};

fn kinds(src: &str) -> Vec<Kind> {
    scan(src).unwrap().iter().map(|t| t.kind).collect()
}

fn lexemes(src: &str) -> Vec<String> {
    scan(src).unwrap().into_iter().map(|t| t.string).collect()
}

#[test]
fn empty_input_gives_only_end() {
    assert_eq!(kinds(""), vec![Kind::EndOfToken]);
    assert_eq!(lexemes(""), vec![String::new()]);
}

#[test]
fn whitespace_only_gives_only_end() {
    assert_eq!(kinds(" \t\r\n  \n"), vec![Kind::EndOfToken]);
    assert_eq!(lexemes("   "), vec![String::new()]);
}

#[test]
fn digits_only_give_one_number() {
    assert_eq!(kinds("0123456789"), vec![Kind::NumberLiteral, Kind::EndOfToken]);
    assert_eq!(lexemes("0123456789"), vec!["0123456789".to_string(), String::new()]);
    assert_eq!(lexemes("7"), vec!["7".to_string(), String::new()]);
}

#[test]
fn keyword_is_not_identifier() {
    let ts = scan("function").unwrap();
    assert_eq!(ts[0].kind, Kind::Function);
    assert_eq!(ts[0].string, "function");
    let ts = scan("functionX").unwrap();
    assert_eq!(ts[0].kind, Kind::Identifier);
    assert_eq!(ts[0].string, "functionX");
    assert_eq!(ts.len(), 2);
}

#[test]
fn all_keywords_are_recognized() {
    assert_eq!(
        kinds("null true false function return var for break continue if elif else print printLine and or"),
        vec![
            Kind::NullLiteral,
            Kind::TrueLiteral,
            Kind::FalseLiteral,
            Kind::Function,
            Kind::Return,
            Kind::Variable,
            Kind::For,
            Kind::Break,
            Kind::Continue,
            Kind::If,
            Kind::Elif,
            Kind::Else,
            Kind::Print,
            Kind::PrintLine,
            Kind::LogicalAnd,
            Kind::LogicalOr,
            Kind::EndOfToken,
        ]
    );
}

#[test]
fn identifiers_take_letters_digits_and_underscores() {
    assert_eq!(kinds("_a1 b_2c x9"), vec![Kind::Identifier, Kind::Identifier, Kind::Identifier, Kind::EndOfToken]);
    assert_eq!(lexemes("_a1 b_2c"), vec!["_a1".to_string(), "b_2c".to_string(), String::new()]);
    assert_eq!(lexemes("12ab"), vec!["12".to_string(), "ab".to_string(), String::new()]);
}

#[test]
fn longest_match_prefers_two_characters() {
    let ts = scan("==").unwrap();
    assert_eq!(ts.len(), 2);
    assert_eq!(ts[0].kind, Kind::Equal);
    assert_eq!(ts[0].string, "==");
    assert_eq!(kinds("=x"), vec![Kind::Assignment, Kind::Identifier, Kind::EndOfToken]);
    assert_eq!(kinds("!= <= >= < > ="), vec![
        Kind::NotEqual,
        Kind::LessOrEqual,
        Kind::GreaterOrEqual,
        Kind::LessThan,
        Kind::GreaterThan,
        Kind::Assignment,
        Kind::EndOfToken,
    ]);
    assert_eq!(kinds("==="), vec![Kind::Equal, Kind::Assignment, Kind::EndOfToken]);
}

#[test]
fn all_punctuators_are_recognized() {
    assert_eq!(kinds("+-*/%,:;(){}[]"), vec![
        Kind::Add,
        Kind::Subtract,
        Kind::Multiply,
        Kind::Divide,
        Kind::Modulo,
        Kind::Comma,
        Kind::Colon,
        Kind::Semicolon,
        Kind::LeftParen,
        Kind::RightParen,
        Kind::LeftBrace,
        Kind::RightBrace,
        Kind::LeftBracket,
        Kind::RightBracket,
        Kind::EndOfToken,
    ]);
}

#[test]
fn string_literal_drops_its_quotes() {
    let ts = scan("'Hello, World!'").unwrap();
    assert_eq!(ts.len(), 2);
    assert_eq!(ts[0].kind, Kind::StringLiteral);
    assert_eq!(ts[0].string, "Hello, World!");
    assert_eq!(lexemes("''"), vec![String::new(), String::new()]);
    assert_eq!(lexemes("'a\nb' 'c'"), vec!["a\nb".to_string(), "c".to_string(), String::new()]);
}

#[test]
fn unterminated_string_is_an_error() {
    assert_eq!(scan("'abc").unwrap_err(), ScanError::UnterminatedString { start_offset: 0 });
    assert_eq!(scan("x = 'abc").unwrap_err(), ScanError::UnterminatedString { start_offset: 4 });
    assert_eq!(scan("'").unwrap_err(), ScanError::UnterminatedString { start_offset: 0 });
}

#[test]
fn invalid_character_is_an_error() {
    assert_eq!(scan("@").unwrap_err(), ScanError::InvalidCharacter { character: '@', offset: 0 });
    assert_eq!(scan("a !b").unwrap_err(), ScanError::InvalidCharacter { character: '!', offset: 2 });
    assert_eq!(scan("1\u{1}").unwrap_err(), ScanError::InvalidCharacter { character: '\u{1}', offset: 1 });
}

#[test]
fn offsets_count_characters() {
    assert_eq!(scan("'é' #").unwrap_err(), ScanError::InvalidCharacter { character: '#', offset: 4 });
    assert_eq!(scan("é").unwrap_err(), ScanError::InvalidCharacter { character: 'é', offset: 0 });
}

#[test]
fn whole_function_scans_end_to_end() {
    assert_eq!(kinds("function main() { print 'Hi'; }"), vec![
        Kind::Function,
        Kind::Identifier,
        Kind::LeftParen,
        Kind::RightParen,
        Kind::LeftBrace,
        Kind::Print,
        Kind::StringLiteral,
        Kind::Semicolon,
        Kind::RightBrace,
        Kind::EndOfToken,
    ]);
    assert_eq!(lexemes("function main() { print 'Hi'; }"), vec![
        "function", "main", "(", ")", "{", "print", "Hi", ";", "}", "",
    ]);
}

#[test]
fn round_trip_over_the_symbol_table() {
    let all = [
        Kind::Unknown,
        Kind::EndOfToken,
        Kind::NullLiteral,
        Kind::TrueLiteral,
        Kind::FalseLiteral,
        Kind::NumberLiteral,
        Kind::StringLiteral,
        Kind::Identifier,
        Kind::Function,
        Kind::Return,
        Kind::Variable,
        Kind::For,
        Kind::Break,
        Kind::Continue,
        Kind::If,
        Kind::Elif,
        Kind::Else,
        Kind::Print,
        Kind::PrintLine,
        Kind::LogicalAnd,
        Kind::LogicalOr,
        Kind::Assignment,
        Kind::Add,
        Kind::Subtract,
        Kind::Multiply,
        Kind::Divide,
        Kind::Modulo,
        Kind::Equal,
        Kind::NotEqual,
        Kind::LessThan,
        Kind::GreaterThan,
        Kind::LessOrEqual,
        Kind::GreaterOrEqual,
        Kind::Comma,
        Kind::Colon,
        Kind::Semicolon,
        Kind::LeftParen,
        Kind::RightParen,
        Kind::LeftBrace,
        Kind::RightBrace,
        Kind::LeftBracket,
        Kind::RightBracket,
    ];
    for k in all {
        let text = to_string(k);
        assert_eq!(to_kind(text), k);
        assert_eq!(to_string(to_kind(text)), text);
    }
}

#[test]
fn symbol_table_entries() {
    assert_eq!(to_string(Kind::Variable), "var");
    assert_eq!(to_string(Kind::PrintLine), "printLine");
    assert_eq!(to_string(Kind::NumberLiteral), "#Number");
    assert_eq!(to_string(Kind::EndOfToken), "#EndOfToken");
    assert_eq!(to_string(Kind::GreaterOrEqual), ">=");
    assert_eq!(to_kind("and"), Kind::LogicalAnd);
    assert_eq!(to_kind("]"), Kind::RightBracket);
    assert_eq!(to_kind("#unknown"), Kind::Unknown);
}

#[test]
fn unknown_text_looks_up_unknown() {
    assert_eq!(to_kind("main"), Kind::Unknown);
    assert_eq!(to_kind(""), Kind::Unknown);
    assert_eq!(to_kind("!"), Kind::Unknown);
    assert_eq!(to_kind("Function"), Kind::Unknown);
}

#[test]
fn token_new_keeps_its_parts() {
    let t = Token::new(Kind::Identifier, "abc".to_string());
    assert_eq!(t.kind, Kind::Identifier);
    assert_eq!(t.string, "abc");
}
