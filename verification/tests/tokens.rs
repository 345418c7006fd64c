use toy_interpreter::chars::CharClass;
use toy_interpreter::literal::{
    has_decimal_point, lookup_keyword, normalize_float, normalize_integer,
};
use toy_interpreter::token::{Token, TokenType};

fn all_kinds() -> Vec<(TokenType, &'static str, &'static str)> {
    vec![
        (TokenType::Illegal, "Illegal", ""),
        (TokenType::Eof, "Eof", ""),
        (TokenType::Ident, "Ident", ""),
        (TokenType::Int, "Int", ""),
        (TokenType::Float, "Float", ""),
        (TokenType::Assign, "Assign", "="),
        (TokenType::Plus, "Plus", "+"),
        (TokenType::Minus, "Minus", "-"),
        (TokenType::Bang, "Bang", "!"),
        (TokenType::Asterisk, "Asterisk", "*"),
        (TokenType::Slash, "Slash", "/"),
        (TokenType::Lt, "Lt", "<"),
        (TokenType::Gt, "Gt", ">"),
        (TokenType::Eq, "Eq", "=="),
        (TokenType::NotEq, "NotEq", "!="),
        (TokenType::Comma, "Comma", ","),
        (TokenType::Semicolon, "Semicolon", ";"),
        (TokenType::Lparen, "Lparen", "("),
        (TokenType::Rparen, "Rparen", ")"),
        (TokenType::Lbrace, "Lbrace", "{"),
        (TokenType::Rbrace, "Rbrace", "}"),
        (TokenType::Function, "Function", "fn"),
        (TokenType::Let, "Let", "let"),
        (TokenType::True, "True", "true"),
        (TokenType::False, "False", "false"),
        (TokenType::If, "If", "if"),
        (TokenType::Else, "Else", "else"),
        (TokenType::Return, "Return", "return"),
    ]
}

#[test]
fn kind_names_match_debug_output() {
    for (kind, name, _) in all_kinds() {
        assert_eq!(kind.get_name(), name);
        assert_eq!(format!("{:?}", kind), name);
    }
}

#[test]
fn kind_spellings_and_widths() {
    for (kind, _, spelling) in all_kinds() {
        assert_eq!(kind.get_spelling(), spelling);
        assert_eq!(kind.get_fixed_width(), spelling.len());
    }
}

#[test]
fn new_token_spans_the_spelling_of_its_kind() {
    let token = Token::new(TokenType::Return, 3);
    assert_eq!(token.get_type(), TokenType::Return);
    assert_eq!(token.get_literal(), None);
    assert_eq!(token.get_position(), (3, 9));
    assert_eq!(token.get_length(), 6);
    assert_eq!(token.get_text(), "return");

    let token = Token::new(TokenType::NotEq, 10);
    assert_eq!(token.get_position(), (10, 12));
    assert_eq!(token.get_length(), 2);

    let token = Token::new(TokenType::Semicolon, 0);
    assert_eq!(token.get_position(), (0, 1));
    assert_eq!(token.get_length(), 1);
}

#[test]
fn end_of_input_token_is_empty() {
    let token = Token::new(TokenType::Eof, 7);
    assert_eq!(token.get_position(), (7, 7));
    assert_eq!(token.get_length(), 0);
    assert_eq!(token.get_literal(), None);
    assert_eq!(token.get_text(), "");

    let token = Token::new(TokenType::Eof, usize::MAX);
    assert_eq!(token.get_position(), (usize::MAX, usize::MAX));
}

#[test]
fn token_with_literal_keeps_text_and_span_apart() {
    let token = Token::with_literal(TokenType::Int, "1230".to_string(), 0, 6);
    assert_eq!(token.get_type(), TokenType::Int);
    assert_eq!(token.get_literal(), Some("1230".to_string()));
    assert_eq!(token.get_text(), "1230");
    assert_eq!(token.get_position(), (0, 6));
    assert_eq!(token.get_length(), 6);
}

#[test]
fn set_literal_gives_the_text_and_its_span() {
    let mut token = Token::new(TokenType::Ident, 114);
    assert_eq!(token.get_literal(), None);
    token.set_literal("this_is_wanted".to_string());
    assert_eq!(token.get_type(), TokenType::Ident);
    assert_eq!(token.get_literal(), Some("this_is_wanted".to_string()));
    assert_eq!(token.get_length(), 14);
    assert_eq!(token.get_position(), (114, 128));

    let mut token = Token::new(TokenType::Int, 0);
    token.set_literal("123".to_string());
    assert_eq!(token.get_length(), 3);
    assert_eq!(token.get_position(), (0, 3));

    let mut token = Token::new(TokenType::Illegal, 9);
    token.set_literal("@".to_string());
    assert_eq!(token.get_position(), (9, 10));
}

#[test]
fn set_literal_replaces_text_and_span() {
    let mut token = Token::with_literal(TokenType::Float, "2".to_string(), 1, 5);
    assert_eq!(token.get_position(), (1, 5));
    token.set_literal("2.75".to_string());
    assert_eq!(token.get_literal(), Some("2.75".to_string()));
    assert_eq!(token.get_position(), (1, 5));
    token.set_literal("".to_string());
    assert_eq!(token.get_literal(), Some("".to_string()));
    assert_eq!(token.get_position(), (1, 1));
    assert_eq!(token.get_length(), 0);
}

#[test]
fn set_literal_counts_characters() {
    let mut token = Token::new(TokenType::Illegal, 3);
    token.set_literal("\u{e9}\u{4e16}".to_string());
    assert_eq!(token.get_position(), (3, 5));
    assert_eq!(token.get_length(), 2);
}

#[test]
fn token_clone_is_equal() {
    let token = Token::with_literal(TokenType::Ident, "x".to_string(), 2, 3);
    let copy = token.clone();
    assert_eq!(copy, token);
    assert_eq!(copy.get_literal(), Some("x".to_string()));
    assert_ne!(copy, Token::with_literal(TokenType::Ident, "y".to_string(), 2, 3));
    assert_ne!(copy, Token::with_literal(TokenType::Ident, "x".to_string(), 2, 4));
}

#[test]
fn integer_normal_form() {
    assert_eq!(normalize_integer("00123"), "123");
    assert_eq!(normalize_integer("001230"), "1230");
    assert_eq!(normalize_integer("5"), "5");
    assert_eq!(normalize_integer("100"), "100");
    assert_eq!(normalize_integer("0"), "");
    assert_eq!(normalize_integer("0000"), "");
    assert_eq!(normalize_integer(""), "");
}

#[test]
fn float_normal_form() {
    assert_eq!(normalize_float("2.00"), "2");
    assert_eq!(normalize_float("0.50"), "0.5");
    assert_eq!(normalize_float("3.14"), "3.14");
    assert_eq!(normalize_float("0.0"), "0");
    assert_eq!(normalize_float("10.0"), "10");
    assert_eq!(normalize_float("1."), "1");
    assert_eq!(normalize_float("1.."), "1");
    assert_eq!(normalize_float("1.2.30"), "1.2.3");
    assert_eq!(normalize_float("00.5"), "00.5");
    assert_eq!(normalize_float("100.0.0"), "100.0");
}

#[test]
fn float_has_a_decimal_point() {
    assert!(has_decimal_point("2.00"));
    assert!(has_decimal_point("2."));
    assert!(has_decimal_point("1.2.3"));
    assert!(!has_decimal_point("200"));
    assert!(!has_decimal_point(""));
}

#[test]
fn keyword_table() {
    assert_eq!(lookup_keyword("fn"), Some(TokenType::Function));
    assert_eq!(lookup_keyword("let"), Some(TokenType::Let));
    assert_eq!(lookup_keyword("true"), Some(TokenType::True));
    assert_eq!(lookup_keyword("false"), Some(TokenType::False));
    assert_eq!(lookup_keyword("if"), Some(TokenType::If));
    assert_eq!(lookup_keyword("else"), Some(TokenType::Else));
    assert_eq!(lookup_keyword("return"), Some(TokenType::Return));
    assert_eq!(lookup_keyword("Let"), None);
    assert_eq!(lookup_keyword("letter"), None);
    assert_eq!(lookup_keyword("le"), None);
    assert_eq!(lookup_keyword(""), None);
    assert_eq!(lookup_keyword("=="), None);
}

#[test]
fn character_classes() {
    for c in [' ', '\t', '\n', '\r'] {
        assert!(CharClass::Whitespace.has(c));
        assert!(!CharClass::Word.has(c));
        assert!(!CharClass::Number.has(c));
    }
    assert!(!CharClass::Whitespace.has('\u{b}'));
    assert!(!CharClass::Whitespace.has('\u{a0}'));
    for c in ['0', '5', '9'] {
        assert!(CharClass::Digit.has(c));
        assert!(CharClass::Number.has(c));
        assert!(CharClass::Word.has(c));
        assert!(!CharClass::Letter.has(c));
    }
    assert!(CharClass::Number.has('.'));
    assert!(!CharClass::Digit.has('.'));
    assert!(!CharClass::Word.has('.'));
    for c in ['a', 'z', 'A', 'Z', '_', 'm'] {
        assert!(CharClass::Letter.has(c));
        assert!(CharClass::Word.has(c));
        assert!(!CharClass::Digit.has(c));
    }
    for c in ['/', ':', '@', '[', '`', '{', '\u{e9}', '\u{663}'] {
        assert!(!CharClass::Letter.has(c));
        assert!(!CharClass::Word.has(c));
        assert!(!CharClass::Digit.has(c));
        assert!(!CharClass::Number.has(c));
    }
}
