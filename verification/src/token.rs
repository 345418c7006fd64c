//! Tokens: the closed set of token kinds, and a token with its optional text
//! and its span in the source.

use vstd::prelude::*;

verus! {

/// The kind of a token. The set is closed: every dispatch on a kind is an
/// exhaustive match.
#[derive(Debug, PartialEq, Eq, Structural, Clone, Copy)]
pub enum TokenType {
    Illegal,
    Eof,
    // Identifiers and literals
    Ident,
    Int,
    Float,
    // Operators
    Assign,
    Plus,
    Minus,
    Bang,
    Asterisk,
    Slash,
    Lt,
    Gt,
    Eq,
    NotEq,
    // Delimiters
    Comma,
    Semicolon,
    Lparen,
    Rparen,
    Lbrace,
    Rbrace,
    // Keywords
    Function,
    Let,
    True,
    False,
    If,
    Else,
    Return,
}

impl TokenType {
    /// Whether a token of this kind carries a text of its own. The other
    /// kinds have one fixed spelling, which the kind implies.
    pub open spec fn carries_text(self) -> bool {
        self is Illegal || self is Ident || self is Int || self is Float
    }

    /// The spelling of a kind that has a fixed one; empty for end of input
    /// and for the kinds that carry a text.
    pub open spec fn spelling(self) -> Seq<char> {
        match self {
            TokenType::Illegal | TokenType::Eof | TokenType::Ident | TokenType::Int
            | TokenType::Float => seq![],
            TokenType::Assign => seq!['='],
            TokenType::Plus => seq!['+'],
            TokenType::Minus => seq!['-'],
            TokenType::Bang => seq!['!'],
            TokenType::Asterisk => seq!['*'],
            TokenType::Slash => seq!['/'],
            TokenType::Lt => seq!['<'],
            TokenType::Gt => seq!['>'],
            TokenType::Eq => seq!['=', '='],
            TokenType::NotEq => seq!['!', '='],
            TokenType::Comma => seq![','],
            TokenType::Semicolon => seq![';'],
            TokenType::Lparen => seq!['('],
            TokenType::Rparen => seq![')'],
            TokenType::Lbrace => seq!['{'],
            TokenType::Rbrace => seq!['}'],
            TokenType::Function => seq!['f', 'n'],
            TokenType::Let => seq!['l', 'e', 't'],
            TokenType::True => seq!['t', 'r', 'u', 'e'],
            TokenType::False => seq!['f', 'a', 'l', 's', 'e'],
            TokenType::If => seq!['i', 'f'],
            TokenType::Else => seq!['e', 'l', 's', 'e'],
            TokenType::Return => seq!['r', 'e', 't', 'u', 'r', 'n'],
        }
    }

    /// The name of the kind, as diagnostics print it.
    pub open spec fn name(self) -> Seq<char> {
        match self {
            TokenType::Illegal => "Illegal"@,
            TokenType::Eof => "Eof"@,
            TokenType::Ident => "Ident"@,
            TokenType::Int => "Int"@,
            TokenType::Float => "Float"@,
            TokenType::Assign => "Assign"@,
            TokenType::Plus => "Plus"@,
            TokenType::Minus => "Minus"@,
            TokenType::Bang => "Bang"@,
            TokenType::Asterisk => "Asterisk"@,
            TokenType::Slash => "Slash"@,
            TokenType::Lt => "Lt"@,
            TokenType::Gt => "Gt"@,
            TokenType::Eq => "Eq"@,
            TokenType::NotEq => "NotEq"@,
            TokenType::Comma => "Comma"@,
            TokenType::Semicolon => "Semicolon"@,
            TokenType::Lparen => "Lparen"@,
            TokenType::Rparen => "Rparen"@,
            TokenType::Lbrace => "Lbrace"@,
            TokenType::Rbrace => "Rbrace"@,
            TokenType::Function => "Function"@,
            TokenType::Let => "Let"@,
            TokenType::True => "True"@,
            TokenType::False => "False"@,
            TokenType::If => "If"@,
            TokenType::Else => "Else"@,
            TokenType::Return => "Return"@,
        }
    }

    /// The name of the kind, as diagnostics print it.
    pub fn get_name(self) -> (name: &'static str)
        ensures
            name@ == self.name(),
    {
        match self {
            TokenType::Illegal => "Illegal",
            TokenType::Eof => "Eof",
            TokenType::Ident => "Ident",
            TokenType::Int => "Int",
            TokenType::Float => "Float",
            TokenType::Assign => "Assign",
            TokenType::Plus => "Plus",
            TokenType::Minus => "Minus",
            TokenType::Bang => "Bang",
            TokenType::Asterisk => "Asterisk",
            TokenType::Slash => "Slash",
            TokenType::Lt => "Lt",
            TokenType::Gt => "Gt",
            TokenType::Eq => "Eq",
            TokenType::NotEq => "NotEq",
            TokenType::Comma => "Comma",
            TokenType::Semicolon => "Semicolon",
            TokenType::Lparen => "Lparen",
            TokenType::Rparen => "Rparen",
            TokenType::Lbrace => "Lbrace",
            TokenType::Rbrace => "Rbrace",
            TokenType::Function => "Function",
            TokenType::Let => "Let",
            TokenType::True => "True",
            TokenType::False => "False",
            TokenType::If => "If",
            TokenType::Else => "Else",
            TokenType::Return => "Return",
        }
    }

    /// The number of characters that a token of this kind spans when its
    /// kind alone decides it: the length of the fixed spelling.
    pub open spec fn fixed_width(self) -> nat {
        self.spelling().len()
    }

    /// The fixed spelling of this kind as a string.
    pub fn get_spelling(self) -> (s: &'static str)
        ensures
            s@ == self.spelling(),
    {
        proof {
            reveal_strlit("");
            reveal_strlit("=");
            reveal_strlit("+");
            reveal_strlit("-");
            reveal_strlit("!");
            reveal_strlit("*");
            reveal_strlit("/");
            reveal_strlit("<");
            reveal_strlit(">");
            reveal_strlit("==");
            reveal_strlit("!=");
            reveal_strlit(",");
            reveal_strlit(";");
            reveal_strlit("(");
            reveal_strlit(")");
            reveal_strlit("{");
            reveal_strlit("}");
            reveal_strlit("fn");
            reveal_strlit("let");
            reveal_strlit("true");
            reveal_strlit("false");
            reveal_strlit("if");
            reveal_strlit("else");
            reveal_strlit("return");
        }
        let s = match self {
            TokenType::Illegal | TokenType::Eof | TokenType::Ident | TokenType::Int
            | TokenType::Float => "",
            TokenType::Assign => "=",
            TokenType::Plus => "+",
            TokenType::Minus => "-",
            TokenType::Bang => "!",
            TokenType::Asterisk => "*",
            TokenType::Slash => "/",
            TokenType::Lt => "<",
            TokenType::Gt => ">",
            TokenType::Eq => "==",
            TokenType::NotEq => "!=",
            TokenType::Comma => ",",
            TokenType::Semicolon => ";",
            TokenType::Lparen => "(",
            TokenType::Rparen => ")",
            TokenType::Lbrace => "{",
            TokenType::Rbrace => "}",
            TokenType::Function => "fn",
            TokenType::Let => "let",
            TokenType::True => "true",
            TokenType::False => "false",
            TokenType::If => "if",
            TokenType::Else => "else",
            TokenType::Return => "return",
        };
        s
    }

    /// The number of characters of the fixed spelling of this kind.
    pub fn get_fixed_width(self) -> (n: usize)
        ensures
            n == self.fixed_width(),
    {
        match self {
            TokenType::Illegal | TokenType::Eof | TokenType::Ident | TokenType::Int
            | TokenType::Float => 0,
            TokenType::Assign
            | TokenType::Plus
            | TokenType::Minus
            | TokenType::Bang
            | TokenType::Asterisk
            | TokenType::Slash
            | TokenType::Lt
            | TokenType::Gt
            | TokenType::Comma
            | TokenType::Semicolon
            | TokenType::Lparen
            | TokenType::Rparen
            | TokenType::Lbrace
            | TokenType::Rbrace => 1,
            TokenType::Eq | TokenType::NotEq | TokenType::Function | TokenType::If => 2,
            TokenType::Let => 3,
            TokenType::True | TokenType::Else => 4,
            TokenType::False => 5,
            TokenType::Return => 6,
        }
    }
}

/// What a token is: its kind, its text where the kind carries one, and the
/// half-open interval `[start, end)` of source positions that it spans.
pub struct TokenView {
    pub kind: TokenType,
    pub text: Option<Seq<char>>,
    pub start: nat,
    pub end: nat,
}

impl TokenView {
    /// The number of source positions that the token spans.
    pub open spec fn width(self) -> int {
        self.end - self.start
    }

    /// The span is an interval, and a token of a kind with a fixed spelling
    /// has no text and spans exactly that spelling. In particular the
    /// end-of-input token is empty, a single-character operator or delimiter
    /// spans one position, and `==` and `!=` span two.
    pub open spec fn wf(self) -> bool {
        &&& self.start <= self.end
        &&& !self.kind.carries_text() ==> self.text is None && self.width()
            == self.kind.fixed_width()
    }

    /// Whether the token has a length. An identifier and a number get
    /// theirs with their text, and have none before.
    pub open spec fn has_length(self) -> bool {
        self.kind is Ident || self.kind is Int || self.kind is Float ==> self.text is Some
    }

    /// The characters that the token stands for: its text where it has one,
    /// else the spelling that its kind implies.
    pub open spec fn spelling(self) -> Seq<char> {
        match self.text {
            Some(text) => text,
            None => self.kind.spelling(),
        }
    }
}

/// The characters of an optional string.
pub open spec fn text_view(text: Option<String>) -> Option<Seq<char>> {
    match text {
        Some(s) => Some(s@),
        None => None,
    }
}

/// The atomic lexical unit.
#[derive(Debug, PartialEq, Eq)]
pub struct Token {
    kind: TokenType,
    literal: Option<String>,
    start_position: usize,
    end_position: usize,
}

impl View for Token {
    type V = TokenView;

    closed spec fn view(&self) -> TokenView {
        TokenView {
            kind: self.kind,
            text: text_view(self.literal),
            start: self.start_position as nat,
            end: self.end_position as nat,
        }
    }
}

impl Clone for Token {
    fn clone(&self) -> (copy: Token)
        ensures
            copy == *self,
    {
        proof {
            use_type_invariant(self);
        }
        let literal = self.literal.clone();
        Token {
            kind: self.kind,
            literal,
            start_position: self.start_position,
            end_position: self.end_position,
        }
    }
}

impl Token {
    /// Whether the token keeps the invariant of its view. Every token that
    /// executable code holds does.
    pub open spec fn wf(&self) -> bool {
        self@.wf()
    }

    #[verifier::type_invariant]
    spec fn holds_invariant(&self) -> bool {
        self.wf()
    }

    /// A token without text that starts at `start_position` and spans the
    /// fixed spelling of its kind. A token of a kind that carries a text
    /// spans nothing yet: `set_literal` gives it its text and its span.
    pub fn new(kind: TokenType, start_position: usize) -> (token: Token)
        requires
            start_position + kind.fixed_width() <= usize::MAX,
        ensures
            token@ == (TokenView {
                kind,
                text: None,
                start: start_position as nat,
                end: start_position as nat + kind.fixed_width(),
            }),
            token.wf(),
    {
        Token {
            kind,
            literal: None,
            start_position,
            end_position: start_position + kind.get_fixed_width(),
        }
    }

    /// A token of a kind that carries a text, with that text and the span
    /// `[start_position, end_position)`.
    pub fn with_literal(
        kind: TokenType,
        literal: String,
        start_position: usize,
        end_position: usize,
    ) -> (token: Token)
        requires
            kind.carries_text(),
            start_position <= end_position,
        ensures
            token@ == (TokenView {
                kind,
                text: Some(literal@),
                start: start_position as nat,
                end: end_position as nat,
            }),
            token.wf(),
    {
        Token { kind, literal: Some(literal), start_position, end_position }
    }

    /// Gives the token the text `literal`, and the span of that text: the
    /// token ends as many positions after its start as the text has
    /// characters. Kind and start stay as they are.
    pub fn set_literal(&mut self, literal: String)
        requires
            old(self)@.kind.carries_text(),
            old(self)@.start + literal@.len() <= usize::MAX,
        ensures
            final(self)@ == (TokenView {
                text: Some(literal@),
                end: old(self)@.start + literal@.len(),
                ..old(self)@
            }),
            final(self).wf(),
    {
        let length = literal.as_str().unicode_len();
        self.end_position = self.start_position + length;
        self.literal = Some(literal);
    }

    /// The number of source positions that the token spans.
    pub fn get_length(&self) -> (length: usize)
        requires
            self@.has_length(),
        ensures
            length == self@.width(),
            self.wf(),
    {
        proof {
            use_type_invariant(self);
        }
        self.end_position - self.start_position
    }

    pub fn get_type(&self) -> (kind: TokenType)
        ensures
            kind == self@.kind,
            self.wf(),
    {
        proof {
            use_type_invariant(self);
        }
        self.kind
    }

    /// The text of the token, absent for a kind with a fixed spelling.
    pub fn get_literal(&self) -> (literal: Option<String>)
        ensures
            text_view(literal) == self@.text,
            self.wf(),
    {
        proof {
            use_type_invariant(self);
        }
        self.literal.clone()
    }

    /// The span of the token: where it starts, and where it ends (exclusive).
    pub fn get_position(&self) -> (span: (usize, usize))
        requires
            self@.has_length(),
        ensures
            span.0 == self@.start,
            span.1 == self@.end,
            self.wf(),
    {
        proof {
            use_type_invariant(self);
        }
        (self.start_position, self.end_position)
    }

    /// The characters that the token stands for: its text where it has one,
    /// else the spelling that its kind implies.
    pub fn get_text(&self) -> (text: String)
        ensures
            text@ == self@.spelling(),
    {
        match &self.literal {
            Some(literal) => literal.clone(),
            None => self.kind.get_spelling().to_owned(),
        }
    }
}

} // verus!
