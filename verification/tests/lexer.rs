use toy_interpreter::lexer::Lexer;
use toy_interpreter::token::{Token, TokenType};

fn context_formatting(input: String, token: &Token) -> String {
    format!(
        "\n\tTYPE: {:?}\n\tLITERAL: {:?}\n\tPOSITION: {:?}\n\tCONTEXT:\n{}\n",
        token.get_type(),
        token.get_literal(),
        token.get_position(),
        Lexer::highlighted_input(input, token)
    )
}

fn check_tokens(input: &str, tests: Vec<(TokenType, &str)>) {
    let mut l = Lexer::new(input.to_string());
    for test in tests {
        let token = l.next_token();
        assert_eq!(
            token.get_type(),
            test.0,
            "{}",
            context_formatting(input.to_string(), &token)
        );

        assert_eq!(
            token.get_text(),
            test.1,
            "{}",
            context_formatting(input.to_string(), &token)
        );
    }
}

#[test]
fn test_token_position_complex() {
    let input = "
            let x = 123;
            let add = fn(x, y) {
                x + y;
            };

            let this_is_wanted = 3.14;
            let add2 = fn(x, y) {
                x + y;
            };

            if (true)
        ";

    let mut seen = 0;
    let mut l = Lexer::new(input.to_string());
    loop {
        let token = l.next_token();
        if token.get_type() == TokenType::Eof {
            break;
        }

        if token.get_literal() == Some("this_is_wanted".to_string()) {
            seen += 1;
            assert_eq!(
                token.get_position(),
                (114, 128),
                "{}",
                context_formatting(input.to_string(), &token)
            )
        }

        if token.get_type() == TokenType::True {
            seen += 1;
            assert_eq!(
                token.get_position(),
                (226, 230),
                "{}",
                context_formatting(input.to_string(), &token)
            )
        }
    }
    assert_eq!(seen, 2);
}

#[test]
fn test_token_position_simple() {
    let input = "(){}";

    let mut seen = 0;
    let mut l = Lexer::new(input.to_string());
    loop {
        let token = l.next_token();
        if token.get_type() == TokenType::Eof {
            break;
        }

        if token.get_type() == TokenType::Rparen {
            seen += 1;
            assert_eq!(
                token.get_position(),
                (1, 2),
                "{}",
                context_formatting(input.to_string(), &token)
            )
        }
    }
    assert_eq!(seen, 1);
}

#[test]
fn test_token_meaning_simple() {
    let input = "=+-<>!*/(){},;";
    let tests = vec![
        TokenType::Assign,
        TokenType::Plus,
        TokenType::Minus,
        TokenType::Lt,
        TokenType::Gt,
        TokenType::Bang,
        TokenType::Asterisk,
        TokenType::Slash,
        TokenType::Lparen,
        TokenType::Rparen,
        TokenType::Lbrace,
        TokenType::Rbrace,
        TokenType::Comma,
        TokenType::Semicolon,
        TokenType::Eof,
    ];

    let mut l = Lexer::new(input.to_string());
    for test in tests {
        let token = l.next_token();
        assert_eq!(
            token.get_type(),
            test,
            "{}",
            context_formatting(input.to_string(), &token)
        );
    }
}

#[test]
fn test_variable_name_with_number() {
    let input = "let an0th3e_5 = 5;";
    let tests = vec![
        (TokenType::Let, "let"),
        (TokenType::Ident, "an0th3e_5"),
        (TokenType::Assign, "="),
        (TokenType::Int, "5"),
        (TokenType::Semicolon, ";"),
        (TokenType::Eof, ""),
    ];

    check_tokens(input, tests);
}

#[test]
fn test_integer_with_leading_zero() {
    let input = "001230";
    let tests = vec![(TokenType::Int, "1230"), (TokenType::Eof, "")];

    let mut l = Lexer::new(input.to_string());
    for test in tests {
        let token = l.next_token();
        assert_eq!(
            token.get_text(),
            test.1,
            "{}",
            context_formatting(input.to_string(), &token)
        );
    }
}

#[test]
fn test_float() {
    let input = "
            let x = 3.14;
            let y = 2.00;
            let z = 0.5;
        ";

    let tests = vec![
        (TokenType::Let, "let"),
        (TokenType::Ident, "x"),
        (TokenType::Assign, "="),
        (TokenType::Float, "3.14"),
        (TokenType::Semicolon, ";"),
        (TokenType::Let, "let"),
        (TokenType::Ident, "y"),
        (TokenType::Assign, "="),
        (TokenType::Float, "2"),
        (TokenType::Semicolon, ";"),
        (TokenType::Let, "let"),
        (TokenType::Ident, "z"),
        (TokenType::Assign, "="),
        (TokenType::Float, "0.5"),
        (TokenType::Semicolon, ";"),
        (TokenType::Eof, ""),
    ];

    check_tokens(input, tests);
}

#[test]
fn test_ignore_eof_as_number() {
    let input = "3210";
    let tests = vec![(TokenType::Int, "3210"), (TokenType::Eof, "")];

    check_tokens(input, tests);
}

#[test]
fn test_empty() {
    let input = "";
    let test = (TokenType::Eof, "");

    let mut l = Lexer::new(input.to_string());
    let token = l.next_token();

    assert_eq!(
        token.get_type(),
        test.0,
        "{}",
        context_formatting(input.to_string(), &token)
    );

    assert_eq!(
        token.get_text(),
        test.1,
        "{}",
        context_formatting(input.to_string(), &token)
    );
}

#[test]
fn test_token_meaning_complex() {
    let input = "
            let five = 5;
            let ten = 10;
            let add = fn(x, y) {
                x + y;
            };

            let result = add(five, ten);

            !-/*5;
            5 < 10 > 5;

            if (5 < 10) {
                return true;
            } else {
                return false;
            }

            5 == 5;
            5 != 10;
            ";

    let tests = vec![
        (TokenType::Let, "let"),
        (TokenType::Ident, "five"),
        (TokenType::Assign, "="),
        (TokenType::Int, "5"),
        (TokenType::Semicolon, ";"),
        (TokenType::Let, "let"),
        (TokenType::Ident, "ten"),
        (TokenType::Assign, "="),
        (TokenType::Int, "10"),
        (TokenType::Semicolon, ";"),
        (TokenType::Let, "let"),
        (TokenType::Ident, "add"),
        (TokenType::Assign, "="),
        (TokenType::Function, "fn"),
        (TokenType::Lparen, "("),
        (TokenType::Ident, "x"),
        (TokenType::Comma, ","),
        (TokenType::Ident, "y"),
        (TokenType::Rparen, ")"),
        (TokenType::Lbrace, "{"),
        (TokenType::Ident, "x"),
        (TokenType::Plus, "+"),
        (TokenType::Ident, "y"),
        (TokenType::Semicolon, ";"),
        (TokenType::Rbrace, "}"),
        (TokenType::Semicolon, ";"),
        (TokenType::Let, "let"),
        (TokenType::Ident, "result"),
        (TokenType::Assign, "="),
        (TokenType::Ident, "add"),
        (TokenType::Lparen, "("),
        (TokenType::Ident, "five"),
        (TokenType::Comma, ","),
        (TokenType::Ident, "ten"),
        (TokenType::Rparen, ")"),
        (TokenType::Semicolon, ";"),
        (TokenType::Bang, "!"),
        (TokenType::Minus, "-"),
        (TokenType::Slash, "/"),
        (TokenType::Asterisk, "*"),
        (TokenType::Int, "5"),
        (TokenType::Semicolon, ";"),
        (TokenType::Int, "5"),
        (TokenType::Lt, "<"),
        (TokenType::Int, "10"),
        (TokenType::Gt, ">"),
        (TokenType::Int, "5"),
        (TokenType::Semicolon, ";"),
        (TokenType::If, "if"),
        (TokenType::Lparen, "("),
        (TokenType::Int, "5"),
        (TokenType::Lt, "<"),
        (TokenType::Int, "10"),
        (TokenType::Rparen, ")"),
        (TokenType::Lbrace, "{"),
        (TokenType::Return, "return"),
        (TokenType::True, "true"),
        (TokenType::Semicolon, ";"),
        (TokenType::Rbrace, "}"),
        (TokenType::Else, "else"),
        (TokenType::Lbrace, "{"),
        (TokenType::Return, "return"),
        (TokenType::False, "false"),
        (TokenType::Semicolon, ";"),
        (TokenType::Rbrace, "}"),
        (TokenType::Int, "5"),
        (TokenType::Eq, "=="),
        (TokenType::Int, "5"),
        (TokenType::Semicolon, ";"),
        (TokenType::Int, "5"),
        (TokenType::NotEq, "!="),
        (TokenType::Int, "10"),
        (TokenType::Semicolon, ";"),
        (TokenType::Eof, ""),
    ];

    check_tokens(input, tests);
}
