//! The scanner: what the next token of a text is, and a cursor over a text
//! that hands its tokens out one at a time.

use crate::chars::{lemma_run_end, run_end, CharClass};
use crate::literal::{
    has_decimal_point, is_float, keyword, lookup_keyword, normal_float, normal_integer,
    normalize_float, normalize_integer,
};
use crate::token::{Token, TokenType, TokenView};
use vstd::prelude::*;
use vstd::string::*;

verus! {

/// The outcome of scanning one token: the token, and the position at which
/// the scan of the token after it begins.
pub struct Scanned {
    pub token: TokenView,
    pub next: nat,
}

/// The kind of the token that `c` is by itself, whatever follows it.
pub open spec fn single(c: char) -> Option<TokenType> {
    if c == ';' {
        Some(TokenType::Semicolon)
    } else if c == '(' {
        Some(TokenType::Lparen)
    } else if c == ')' {
        Some(TokenType::Rparen)
    } else if c == '{' {
        Some(TokenType::Lbrace)
    } else if c == '}' {
        Some(TokenType::Rbrace)
    } else if c == ',' {
        Some(TokenType::Comma)
    } else if c == '+' {
        Some(TokenType::Plus)
    } else if c == '-' {
        Some(TokenType::Minus)
    } else if c == '*' {
        Some(TokenType::Asterisk)
    } else if c == '/' {
        Some(TokenType::Slash)
    } else if c == '<' {
        Some(TokenType::Lt)
    } else if c == '>' {
        Some(TokenType::Gt)
    } else {
        None
    }
}

/// A token of a kind with a fixed spelling that starts at `start`.
pub open spec fn fixed(kind: TokenType, start: nat) -> Scanned {
    Scanned {
        token: TokenView { kind, text: None, start, end: start + kind.fixed_width() },
        next: start + kind.fixed_width(),
    }
}

/// The token with the text `text` that spans `[start, end)`.
pub open spec fn spanning(kind: TokenType, text: Seq<char>, start: nat, end: nat) -> Scanned {
    Scanned { token: TokenView { kind, text: Some(text), start, end }, next: end }
}

/// The end-of-input token of a text of `len` characters.
pub open spec fn end_of_input(len: nat) -> Scanned {
    fixed(TokenType::Eof, len)
}

/// The numeric literal that starts at `start`: the maximal run of digits
/// and decimal points, a float if it holds a decimal point and an integer
/// otherwise, with its text in normal form.
pub open spec fn number_at(s: Seq<char>, start: nat) -> Scanned {
    let end = run_end(s, start, CharClass::Number);
    let raw = s.subrange(start as int, end as int);
    if is_float(raw) {
        spanning(TokenType::Float, normal_float(raw), start, end)
    } else {
        spanning(TokenType::Int, normal_integer(raw), start, end)
    }
}

/// The word that starts at `start`: the maximal run of letters, digits and
/// underscores, a keyword if the table holds it and an identifier
/// otherwise.
pub open spec fn word_at(s: Seq<char>, start: nat) -> Scanned {
    let end = run_end(s, start, CharClass::Word);
    let word = s.subrange(start as int, end as int);
    match keyword(word) {
        Some(kind) => fixed(kind, start),
        None => spanning(TokenType::Ident, word, start, end),
    }
}

/// The token that starts at `start`, a position that holds no whitespace.
pub open spec fn token_at(s: Seq<char>, start: nat) -> Scanned {
    if start >= s.len() {
        end_of_input(s.len())
    } else {
        let c = s[start as int];
        let followed_by_equals = start + 1 < s.len() && s[start as int + 1] == '=';
        if c == '=' {
            fixed(if followed_by_equals { TokenType::Eq } else { TokenType::Assign }, start)
        } else if c == '!' {
            fixed(if followed_by_equals { TokenType::NotEq } else { TokenType::Bang }, start)
        } else if single(c) is Some {
            fixed(single(c)->0, start)
        } else if CharClass::Digit.contains(c) {
            number_at(s, start)
        } else if CharClass::Letter.contains(c) {
            word_at(s, start)
        } else {
            spanning(TokenType::Illegal, seq![c], start, start + 1)
        }
    }
}

/// The next token of `s` from `pos` on: the token that starts after the
/// whitespace at `pos`.
pub open spec fn scan(s: Seq<char>, pos: nat) -> Scanned {
    token_at(s, run_end(s, pos, CharClass::Whitespace))
}

/// A word that the table holds is the spelling of its keyword, and a
/// keyword carries no text.
pub proof fn lemma_keyword(word: Seq<char>)
    ensures
        keyword(word) matches Some(kind) ==> word == kind.spelling() && !kind.carries_text(),
{
}

/// What holds of every scanned token.
///
/// The token keeps the invariant of tokens. It starts where the
/// whitespace at `pos` ends and ends where the next scan begins, inside
/// the text. It is the end-of-input token exactly if nothing but whitespace
/// is left, and then it is empty and sits at the end of the text. Any other
/// token spans at least one character. An identifier, a literal and an
/// illegal character carry a text, so that the token has a length; no
/// other token carries one.
pub proof fn lemma_scan(s: Seq<char>, pos: nat)
    requires
        pos <= s.len(),
    ensures
        scan(s, pos).token.wf(),
        scan(s, pos).token.start == run_end(s, pos, CharClass::Whitespace),
        pos <= scan(s, pos).token.start <= scan(s, pos).token.end <= s.len(),
        scan(s, pos).next == scan(s, pos).token.end,
        scan(s, pos).token.kind is Eof <==> scan(s, pos).token.start == s.len(),
        scan(s, pos).token.kind is Eof <==> scan(s, pos).token.width() == 0,
        scan(s, pos).token.text is Some <==> scan(s, pos).token.kind.carries_text(),
        scan(s, pos).token.has_length(),
        scan(s, pos).token.kind is Illegal ==> scan(s, pos).token.width() == 1,
{
    let start = run_end(s, pos, CharClass::Whitespace);
    lemma_run_end(s, pos, CharClass::Whitespace);
    if start < s.len() {
        let c = s[start as int];
        if c == '=' || c == '!' || single(c) is Some {
        } else if CharClass::Digit.contains(c) {
            lemma_run_end(s, start, CharClass::Number);
        } else if CharClass::Letter.contains(c) {
            lemma_run_end(s, start, CharClass::Word);
            let end = run_end(s, start, CharClass::Word);
            lemma_keyword(s.subrange(start as int, end as int));
        }
    }
}

/// The characters of `s` that `token` spans.
pub open spec fn lexeme(s: Seq<char>, token: TokenView) -> Seq<char> {
    s.subrange(token.start as int, token.end as int)
}

/// Scanning loses nothing but whitespace and what the normal form of a
/// number drops.
///
/// Between the position of the scan and the token there is whitespace
/// alone, and the token spans none. The token spans the spelling of its
/// kind where the kind has a fixed one. An identifier and an illegal
/// character carry the characters that they span as their text, and a
/// number carries their normal form.
pub proof fn lemma_scan_is_lossless(s: Seq<char>, pos: nat)
    requires
        pos <= s.len(),
    ensures
        forall|i: int|
            pos <= i < scan(s, pos).token.start ==> CharClass::Whitespace.contains(#[trigger] s[i]),
        forall|i: int|
            scan(s, pos).token.start <= i < scan(s, pos).token.end
                ==> !CharClass::Whitespace.contains(#[trigger] s[i]),
        match scan(s, pos).token.kind {
            TokenType::Ident | TokenType::Illegal => scan(s, pos).token.text == Some(
                lexeme(s, scan(s, pos).token),
            ),
            TokenType::Int => scan(s, pos).token.text == Some(
                normal_integer(lexeme(s, scan(s, pos).token)),
            ),
            TokenType::Float => scan(s, pos).token.text == Some(
                normal_float(lexeme(s, scan(s, pos).token)),
            ),
            kind => lexeme(s, scan(s, pos).token) == kind.spelling(),
        },
{
    let start = run_end(s, pos, CharClass::Whitespace);
    let token = scan(s, pos).token;
    lemma_run_end(s, pos, CharClass::Whitespace);
    lemma_scan(s, pos);
    if start < s.len() {
        let c = s[start as int];
        if c == '=' || c == '!' || single(c) is Some {
            assert(lexeme(s, token) =~= token.kind.spelling());
        } else if CharClass::Digit.contains(c) {
            lemma_run_end(s, start, CharClass::Number);
        } else if CharClass::Letter.contains(c) {
            lemma_run_end(s, start, CharClass::Word);
            lemma_keyword(lexeme(s, token));
        } else {
            assert(lexeme(s, token) =~= seq![c]);
        }
    } else {
        assert(lexeme(s, token) =~= token.kind.spelling());
    }
}

/// The tokens of `s` from `pos` on, in source order, up to and with the
/// end-of-input token.
pub open spec fn tokens_from(s: Seq<char>, pos: nat) -> Seq<TokenView>
    decreases s.len() - pos,
{
    let scanned = scan(s, pos);
    if scanned.token.kind is Eof {
        seq![scanned.token]
    } else {
        proof {
            if pos <= s.len() {
                lemma_scan(s, pos);
            }
        }
        seq![scanned.token] + tokens_from(s, scanned.next)
    }
}

/// At the end of the text every scan gives the same end-of-input token
/// and leaves the position where it is; and a scan that gives an
/// end-of-input token ends there.
pub proof fn lemma_end_of_input(s: Seq<char>, pos: nat)
    requires
        pos <= s.len(),
    ensures
        scan(s, s.len()) == end_of_input(s.len()),
        scan(s, pos).token.kind is Eof ==> scan(s, pos) == end_of_input(s.len()),
        end_of_input(s.len()).token.kind is Eof,
        end_of_input(s.len()).next == s.len(),
{
    lemma_scan(s, pos);
}

/// The shape of a token stream.
///
/// The stream ends with the end-of-input token, which is empty and sits at
/// the end of the text, and holds no other end-of-input token. Every token
/// keeps the invariant of tokens and lies inside the text, and the tokens
/// follow each other in the text without overlap.
pub proof fn lemma_tokens_from(s: Seq<char>, pos: nat)
    requires
        pos <= s.len(),
    ensures
        tokens_from(s, pos).len() >= 1,
        tokens_from(s, pos).last() == end_of_input(s.len()).token,
        forall|i: int|
            0 <= i < tokens_from(s, pos).len() - 1 ==> !(#[trigger] tokens_from(s, pos)[i].kind
                is Eof),
        forall|i: int|
            0 <= i < tokens_from(s, pos).len() ==> {
                let token = #[trigger] tokens_from(s, pos)[i];
                token.wf() && pos <= token.start && token.end <= s.len()
            },
        forall|i: int, j: int|
            0 <= i < j < tokens_from(s, pos).len() ==> (#[trigger] tokens_from(s, pos)[i]).end <= (
            #[trigger] tokens_from(s, pos)[j]).start,
    decreases s.len() - pos,
{
    lemma_scan(s, pos);
    lemma_end_of_input(s, pos);
    let scanned = scan(s, pos);
    if !(scanned.token.kind is Eof) {
        lemma_tokens_from(s, scanned.next);
        let rest = tokens_from(s, scanned.next);
        let all = tokens_from(s, pos);
        // every token of the stream but its first is a token of the rest
        assert forall|i: int| 1 <= i < all.len() implies all[i] == rest[i - 1] by {}
    }
}

/// A character that is a token by itself wherever it stands: one of
/// `+ ( ) { } , ;`, or one of `- * / < >`.
pub open spec fn stands_alone(c: char) -> bool {
    single(c) is Some
}

/// The token that the punctuation character at `i` of `s` is by itself,
/// where nothing joins it to a neighbour.
pub open spec fn punctuation_token(s: Seq<char>, i: int) -> TokenView {
    let kind = if s[i] == '=' {
        TokenType::Assign
    } else if s[i] == '!' {
        TokenType::Bang
    } else {
        single(s[i])->0
    };
    TokenView { kind, text: None, start: i as nat, end: (i + 1) as nat }
}

/// Whether `s` is made of punctuation alone, none of it joined into a
/// two-character operator: every character is `=`, `!` or one that stands
/// alone, and no `=` follows a `=` or a `!`.
pub open spec fn is_plain_punctuation(s: Seq<char>) -> bool {
    &&& forall|i: int|
        0 <= i < s.len() ==> #[trigger] s[i] == '=' || s[i] == '!' || stands_alone(s[i])
    &&& forall|i: int|
        0 <= i < s.len() - 1 && (#[trigger] s[i] == '=' || s[i] == '!') ==> s[i + 1] != '='
}

/// A text of punctuation alone, in which no two characters join into `==`
/// or `!=`, gives exactly one token for each character, in source order and
/// each one position wide, and then the empty end-of-input token.
pub proof fn lemma_punctuation_tokens(s: Seq<char>)
    requires
        is_plain_punctuation(s),
    ensures
        tokens_from(s, 0).len() == s.len() + 1,
        forall|i: int| 0 <= i < s.len() ==> tokens_from(s, 0)[i] == punctuation_token(s, i),
        tokens_from(s, 0)[s.len() as int] == end_of_input(s.len()).token,
{
    lemma_punctuation_tokens_from(s, 0);
}

/// The statement of `lemma_punctuation_tokens` for the tokens from `pos` on.
proof fn lemma_punctuation_tokens_from(s: Seq<char>, pos: nat)
    requires
        is_plain_punctuation(s),
        pos <= s.len(),
    ensures
        tokens_from(s, pos).len() == s.len() - pos + 1,
        forall|i: int|
            pos <= i < s.len() ==> tokens_from(s, pos)[i - pos] == punctuation_token(s, i),
        tokens_from(s, pos)[s.len() - pos] == end_of_input(s.len()).token,
    decreases s.len() - pos,
{
    lemma_scan(s, pos);
    lemma_end_of_input(s, pos);
    if pos < s.len() {
        // the character at `pos` is a token by itself, and the rest follows
        assert(scan(s, pos) == fixed(punctuation_token(s, pos as int).kind, pos));
        lemma_punctuation_tokens_from(s, pos + 1);
        let rest = tokens_from(s, pos + 1);
        let all = tokens_from(s, pos);
        assert forall|k: int| 1 <= k < all.len() implies all[k] == rest[k - 1] by {}
    }
}

/// The text `input` with the span of `token` marked: `>` before its first
/// character and `<` after its last.
pub open spec fn highlighted(input: Seq<char>, token: TokenView) -> Seq<char> {
    input.subrange(0, token.start as int) + seq!['>'] + input.subrange(
        token.start as int,
        token.end as int,
    ) + seq!['<'] + input.subrange(token.end as int, input.len() as int)
}

/// What a scanner is: the text that it reads, and the position of the
/// character that it looks at.
pub struct LexerView {
    pub source: Seq<char>,
    pub cursor: nat,
}

/// In an ASCII text every character is one byte, so that the positions of
/// a token, which count characters, are byte offsets into the text.
pub proof fn lemma_ascii_positions(input: &str)
    requires
        is_ascii(input),
    ensures
        input.spec_bytes().len() == input@.len(),
        forall|i: int| 0 <= i < input@.len() ==> input.spec_bytes()[i] == input@[i] as u8,
{
    is_ascii_spec_bytes(input);
}

/// A cursor over a text that hands its tokens out one at a time. Positions
/// count the characters of the text; in an ASCII text they are byte offsets.
#[derive(Debug)]
pub struct Lexer {
    input: String,
    position: usize,
    read_position: usize,
    ch: Option<char>,
}

impl View for Lexer {
    type V = LexerView;

    closed spec fn view(&self) -> LexerView {
        LexerView { source: self.input@, cursor: self.position as nat }
    }
}

impl Clone for Lexer {
    fn clone(&self) -> (copy: Lexer)
        ensures
            copy == *self,
    {
        Lexer {
            input: self.input.clone(),
            position: self.position,
            read_position: self.read_position,
            ch: self.ch,
        }
    }
}

impl Default for Lexer {
    /// A scanner over the empty text.
    fn default() -> (lexer: Lexer)
        ensures
            lexer.wf(),
            lexer@ == (LexerView { source: Seq::<char>::empty(), cursor: 0 }),
    {
        Lexer { input: String::new(), position: 0, read_position: 0, ch: None }
    }
}

impl Lexer {
    /// The cursor is inside the text or at its end, and the scanner holds
    /// the character at the cursor.
    pub open spec fn wf(&self) -> bool {
        &&& self@.cursor <= self@.source.len()
        &&& self.holds_current()
    }

    /// The character that the scanner holds is the one at the cursor, none
    /// at the end of the text, and the position to read next is the one
    /// after the cursor, which stops at the end of the text.
    pub closed spec fn holds_current(&self) -> bool {
        if self.position < self.input@.len() {
            &&& self.ch == Some(self.input@[self.position as int])
            &&& self.read_position == self.position + 1
        } else {
            &&& self.ch is None
            &&& self.read_position == self.input@.len()
        }
    }

    /// A scanner at the start of `input`.
    pub fn new(input: String) -> (lexer: Lexer)
        ensures
            lexer.wf(),
            lexer@ == (LexerView { source: input@, cursor: 0 }),
    {
        let mut lexer = Lexer { input, position: 0, read_position: 0, ch: None };
        lexer.read_char();
        lexer
    }

    /// Marks the span of `token` in `input`, for diagnostics.
    pub fn highlighted_input(input: String, token: &Token) -> (context: String)
        requires
            token@.has_length(),
            token@.end <= input@.len(),
        ensures
            context@ == highlighted(input@, token@),
    {
        proof {
            reveal_strlit(">");
            reveal_strlit("<");
        }
        let text = input.as_str();
        let (start, end) = token.get_position();
        let length = token.get_length();
        let mut context = text.substring_char(0, start).to_owned();
        context.append(">");
        context.append(text.substring_char(start, start + length));
        context.append("<");
        context.append(text.substring_char(end, text.unicode_len()));
        context
    }

    /// Moves the cursor to the position to read next and takes up the
    /// character there. At the end of the text the cursor stays.
    fn read_char(&mut self)
        requires
            old(self).read_position <= old(self).input@.len(),
        ensures
            final(self).wf(),
            final(self)@.source == old(self)@.source,
            final(self)@.cursor == old(self).read_position,
    {
        let len = self.input.as_str().unicode_len();
        if self.read_position < len {
            self.ch = Some(self.input.as_str().get_char(self.read_position));
            self.position = self.read_position;
            self.read_position += 1;
        } else {
            self.ch = None;
            self.position = len;
        }
    }

    /// The character after the one at the cursor, which stays where it is.
    fn peek_char(&self) -> (next: Option<char>)
        requires
            self.wf(),
        ensures
            next == if self@.cursor + 1 < self@.source.len() {
                Some(self@.source[self@.cursor as int + 1])
            } else {
                None
            },
    {
        if self.read_position < self.input.as_str().unicode_len() {
            Some(self.input.as_str().get_char(self.read_position))
        } else {
            None
        }
    }

    /// Tests whether the character at the cursor belongs to `class`.
    fn at(&self, class: CharClass) -> (found: bool)
        requires
            self.wf(),
        ensures
            found == (self@.cursor < self@.source.len() && class.contains(
                self@.source[self@.cursor as int],
            )),
    {
        match self.ch {
            Some(c) => class.has(c),
            None => false,
        }
    }

    /// Moves the cursor past the maximal run of characters of `class`.
    fn read_run(&mut self, class: CharClass)
        requires
            old(self).wf(),
        ensures
            final(self).wf(),
            final(self)@.source == old(self)@.source,
            final(self)@.cursor == run_end(old(self)@.source, old(self)@.cursor, class),
    {
        while self.at(class)
            invariant
                self.wf(),
                self@.source == old(self)@.source,
                run_end(self@.source, self@.cursor, class) == run_end(
                    old(self)@.source,
                    old(self)@.cursor,
                    class,
                ),
            decreases self@.source.len() - self@.cursor,
        {
            self.read_char();
        }
    }

    /// The characters of the text from `start` to the cursor.
    fn text_from(&self, start: usize) -> (text: &str)
        requires
            self.wf(),
            start <= self@.cursor,
        ensures
            text@ == self@.source.subrange(start as int, self@.cursor as int),
    {
        self.input.as_str().substring_char(start, self.position)
    }

    /// Scans the next token and moves the cursor past it. At the end of the
    /// text the token is the end-of-input token, and the cursor stays.
    pub fn next_token(&mut self) -> (token: Token)
        requires
            old(self).wf(),
        ensures
            final(self).wf(),
            final(self)@.source == old(self)@.source,
            token@ == scan(old(self)@.source, old(self)@.cursor).token,
            final(self)@.cursor == scan(old(self)@.source, old(self)@.cursor).next,
            token.wf(),
            token@.has_length(),
    {
        self.read_run(CharClass::Whitespace);

        let start_pos = self.position;
        proof {
            lemma_scan(old(self)@.source, old(self)@.cursor);
        }
        let token = match self.ch {
            None => Token::new(TokenType::Eof, start_pos),
            Some(';') => Token::new(TokenType::Semicolon, start_pos),
            Some('(') => Token::new(TokenType::Lparen, start_pos),
            Some(')') => Token::new(TokenType::Rparen, start_pos),
            Some('{') => Token::new(TokenType::Lbrace, start_pos),
            Some('}') => Token::new(TokenType::Rbrace, start_pos),
            Some(',') => Token::new(TokenType::Comma, start_pos),
            Some('+') => Token::new(TokenType::Plus, start_pos),
            Some('-') => Token::new(TokenType::Minus, start_pos),
            Some('*') => Token::new(TokenType::Asterisk, start_pos),
            Some('/') => Token::new(TokenType::Slash, start_pos),
            Some('<') => Token::new(TokenType::Lt, start_pos),
            Some('>') => Token::new(TokenType::Gt, start_pos),
            Some('=') => {
                if let Some('=') = self.peek_char() {
                    self.read_char();
                    Token::new(TokenType::Eq, start_pos)
                } else {
                    Token::new(TokenType::Assign, start_pos)
                }
            },
            Some('!') => {
                if let Some('=') = self.peek_char() {
                    self.read_char();
                    Token::new(TokenType::NotEq, start_pos)
                } else {
                    Token::new(TokenType::Bang, start_pos)
                }
            },
            Some('0'..='9') => {
                self.read_run(CharClass::Number);
                proof {
                    lemma_run_end(self@.source, start_pos as nat, CharClass::Number);
                }
                let literal = self.text_from(start_pos);
                // the cursor is already past the literal
                return if has_decimal_point(literal) {
                    Token::with_literal(
                        TokenType::Float,
                        normalize_float(literal),
                        start_pos,
                        self.position,
                    )
                } else {
                    Token::with_literal(
                        TokenType::Int,
                        normalize_integer(literal),
                        start_pos,
                        self.position,
                    )
                };
            },
            Some('a'..='z' | 'A'..='Z' | '_') => {
                self.read_run(CharClass::Word);
                proof {
                    lemma_run_end(self@.source, start_pos as nat, CharClass::Word);
                }
                let word = self.text_from(start_pos);
                // the cursor is already past the word
                return match lookup_keyword(word) {
                    Some(kind) => Token::new(kind, start_pos),
                    None => Token::with_literal(
                        TokenType::Ident,
                        word.to_owned(),
                        start_pos,
                        self.position,
                    ),
                };
            },
            Some(c) => {
                let character = self.input.as_str().substring_char(start_pos, start_pos + 1);
                assert(character@ =~= seq![c]);
                Token::with_literal(
                    TokenType::Illegal,
                    character.to_owned(),
                    start_pos,
                    start_pos + 1,
                )
            },
        };

        self.read_char();
        token
    }
}

} // verus!
