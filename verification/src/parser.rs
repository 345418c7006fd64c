//! The statement parser: what a stream of tokens parses to, and a parser
//! that reads the tokens of a scanner through a window of two.

use crate::ast::{Identifier, IdentifierView, Program, Statement, StatementView};
use crate::lexer::{lemma_end_of_input, lemma_scan, lemma_tokens_from, scan, tokens_from};
use crate::lexer::{Lexer, LexerView};
use crate::token::{Token, TokenType, TokenView};
use vstd::prelude::*;
use vstd::string::*;

verus! {

/// What a parse error is: what was expected and what was found, and the
/// token at which the parser met it.
pub struct ParserErrorView {
    pub message: Seq<char>,
    pub token: TokenView,
}

/// Whether `ts` is a stream of tokens as a scanner gives it: it ends with
/// an end-of-input token and holds no other.
pub open spec fn is_stream(ts: Seq<TokenView>) -> bool {
    &&& ts.len() >= 1
    &&& ts.last().kind is Eof
    &&& forall|i: int| 0 <= i < ts.len() - 1 ==> !(#[trigger] ts[i].kind is Eof)
}

/// The stream after its first token. The end-of-input token stays: past
/// the end there is nothing but the end.
pub open spec fn advance(ts: Seq<TokenView>) -> Seq<TokenView> {
    if ts.len() > 1 {
        ts.drop_first()
    } else {
        ts
    }
}

/// The token after the first of the stream.
pub open spec fn peek(ts: Seq<TokenView>) -> TokenView {
    advance(ts)[0]
}

/// The message of the error that a token of kind `found` is where one of
/// kind `expected` has to be.
pub open spec fn expectation_message(expected: TokenType, found: TokenType) -> Seq<char> {
    "Expected next token to be of type \""@ + expected.name() + "\", but got \""@ + found.name()
        + "\""@
}

/// The message of the error that no statement starts with a token of kind
/// `found`.
pub open spec fn unknown_statement_message(found: TokenType) -> Seq<char> {
    "Unknown token type for statement: "@ + found.name()
}

/// What is left of the stream once the token after the first is known to be
/// of kind `kind`: the stream after its first token. Where the token is of
/// another kind this is an error at that token, and nothing is consumed.
pub open spec fn expect(ts: Seq<TokenView>, kind: TokenType) -> Result<
    Seq<TokenView>,
    ParserErrorView,
> {
    if peek(ts).kind == kind {
        Ok(advance(ts))
    } else {
        Err(
            ParserErrorView {
                message: expectation_message(kind, peek(ts).kind),
                token: peek(ts),
            },
        )
    }
}

/// The stream from its first semicolon or end-of-input token on: what is
/// left once the rest of a statement has been passed over.
pub open spec fn skip_to_end(ts: Seq<TokenView>) -> Seq<TokenView>
    decreases ts.len(),
{
    if ts.len() <= 1 || ts[0].kind is Semicolon || ts[0].kind is Eof {
        ts
    } else {
        skip_to_end(ts.drop_first())
    }
}

/// The outcome of parsing one statement: the statement or the error, and
/// the stream from the last token that the parser consumed on.
pub struct ParsedStatement {
    pub result: Result<StatementView, ParserErrorView>,
    pub rest: Seq<TokenView>,
}

/// A binding: `let`, an identifier, `=`, and then everything up to the
/// semicolon or the end of input. A token of another kind in the place of
/// the identifier or of the `=` is an error at that token, and the parser
/// stays before that token.
pub open spec fn parse_let(ts: Seq<TokenView>) -> ParsedStatement {
    match expect(ts, TokenType::Ident) {
        Err(error) => ParsedStatement { result: Err(error), rest: ts },
        Ok(at_name) => match expect(at_name, TokenType::Assign) {
            Err(error) => ParsedStatement { result: Err(error), rest: at_name },
            Ok(at_assign) => ParsedStatement {
                result: Ok(
                    StatementView::Let {
                        token: ts[0],
                        name: IdentifierView {
                            token: at_name[0],
                            value: at_name[0].spelling(),
                        },
                    },
                ),
                rest: skip_to_end(at_assign),
            },
        },
    }
}

/// A return: `return`, and then everything up to the semicolon or the end
/// of input.
pub open spec fn parse_return(ts: Seq<TokenView>) -> ParsedStatement {
    ParsedStatement {
        result: Ok(StatementView::Return { token: ts[0] }),
        rest: skip_to_end(ts),
    }
}

/// The statement at the start of the stream. A stream that starts with
/// neither `let` nor `return` gives an error at its first token, and
/// nothing is consumed.
pub open spec fn parse_one(ts: Seq<TokenView>) -> ParsedStatement {
    match ts[0].kind {
        TokenType::Let => parse_let(ts),
        TokenType::Return => parse_return(ts),
        found => ParsedStatement {
            result: Err(
                ParserErrorView { message: unknown_statement_message(found), token: ts[0] },
            ),
            rest: ts,
        },
    }
}

/// What a stream parses to: its statements in source order, and its errors
/// in the order in which the parser meets them.
pub struct ParsedProgram {
    pub statements: Seq<StatementView>,
    pub errors: Seq<ParserErrorView>,
}

/// Parses statement after statement. After each statement, and after each
/// error, the parser steps over one token; it stops once the token it
/// then stands at is the end of input.
pub open spec fn parse_all(ts: Seq<TokenView>) -> ParsedProgram
    decreases ts.len(),
    when is_stream(ts)
{
    let parsed = parse_one(ts);
    let next = advance(parsed.rest);
    let tail = if next[0].kind is Eof {
        ParsedProgram { statements: seq![], errors: seq![] }
    } else {
        proof {
            lemma_parse_one(ts);
            lemma_advance(parsed.rest);
        }
        parse_all(next)
    };
    match parsed.result {
        Ok(statement) => ParsedProgram {
            statements: seq![statement] + tail.statements,
            errors: tail.errors,
        },
        Err(error) => ParsedProgram {
            statements: tail.statements,
            errors: seq![error] + tail.errors,
        },
    }
}

/// The result of parsing a stream: the statements where there is no error,
/// else the errors.
pub open spec fn parse_outcome(ts: Seq<TokenView>) -> Result<
    Seq<StatementView>,
    Seq<ParserErrorView>,
> {
    let parsed = parse_all(ts);
    if parsed.errors.len() == 0 {
        Ok(parsed.statements)
    } else {
        Err(parsed.errors)
    }
}

/// Whether `rest` is what is left of `ts` once some of its first tokens
/// are gone.
pub open spec fn is_rest_of(rest: Seq<TokenView>, ts: Seq<TokenView>) -> bool {
    &&& rest.len() <= ts.len()
    &&& rest == ts.subrange(ts.len() - rest.len(), ts.len() as int)
}

/// Stepping over a token keeps a stream a stream, and shortens it by that
/// token unless it stands at the end of input.
pub proof fn lemma_advance(ts: Seq<TokenView>)
    requires
        is_stream(ts),
    ensures
        is_stream(advance(ts)),
        is_rest_of(advance(ts), ts),
        ts[0].kind is Eof <==> ts.len() == 1,
        ts.len() > 1 ==> advance(ts).len() == ts.len() - 1,
        ts.len() == 1 ==> advance(ts) == ts,
{
    if ts.len() > 1 {
        let rest = ts.drop_first();
        assert forall|i: int| 0 <= i < rest.len() implies rest[i] == ts[i + 1] by {}
    } else {
        assert(ts =~= ts.subrange(0, ts.len() as int));
    }
}

/// Passing over the rest of a statement keeps a stream a stream and ends at
/// a semicolon or at the end of input. What is passed over is the run of
/// tokens before that one, none of which is a semicolon.
pub proof fn lemma_skip_to_end(ts: Seq<TokenView>)
    requires
        is_stream(ts),
    ensures
        is_stream(skip_to_end(ts)),
        is_rest_of(skip_to_end(ts), ts),
        skip_to_end(ts)[0].kind is Semicolon || skip_to_end(ts)[0].kind is Eof,
        forall|i: int|
            0 <= i < ts.len() - skip_to_end(ts).len() ==> !(#[trigger] ts[i].kind is Semicolon),
    decreases ts.len(),
{
    if ts.len() <= 1 || ts[0].kind is Semicolon || ts[0].kind is Eof {
        assert(ts =~= ts.subrange(0, ts.len() as int));
    } else {
        let tail = ts.drop_first();
        lemma_advance(ts);
        lemma_skip_to_end(tail);
        let rest = skip_to_end(tail);
        assert(rest =~= ts.subrange(ts.len() - rest.len(), ts.len() as int));
        assert forall|i: int| 0 <= i < ts.len() - rest.len() implies !(#[trigger] ts[i].kind
            is Semicolon) by {
            if i > 0 {
                assert(ts[i] == tail[i - 1]);
            }
        }
    }
}

/// Parsing one statement keeps a stream a stream and consumes a run of
/// tokens from its start. A statement ends at a semicolon or at the end of
/// input, where the parser then stands. An error consumes at most one
/// token.
pub proof fn lemma_parse_one(ts: Seq<TokenView>)
    requires
        is_stream(ts),
    ensures
        is_stream(parse_one(ts).rest),
        is_rest_of(parse_one(ts).rest, ts),
        parse_one(ts).result is Ok ==> parse_one(ts).rest[0].kind is Semicolon || parse_one(
            ts,
        ).rest[0].kind is Eof,
        parse_one(ts).result is Err ==> parse_one(ts).rest.len() >= ts.len() - 1,
{
    lemma_advance(ts);
    assert(ts =~= ts.subrange(0, ts.len() as int));
    if ts[0].kind is Let {
        if let Ok(at_name) = expect(ts, TokenType::Ident) {
            lemma_advance(at_name);
            if let Ok(at_assign) = expect(at_name, TokenType::Assign) {
                lemma_skip_to_end(at_assign);
                let rest = skip_to_end(at_assign);
                assert(rest =~= ts.subrange(ts.len() - rest.len(), ts.len() as int));
            }
        }
    } else if ts[0].kind is Return {
        lemma_skip_to_end(ts);
    }
}

/// A parse gives a program or errors, never both and never neither: the
/// result is a program exactly if the parser met no error, and a list of
/// errors is never empty.
pub proof fn lemma_outcome_is_exclusive(ts: Seq<TokenView>)
    requires
        is_stream(ts),
    ensures
        parse_outcome(ts) is Ok <==> parse_all(ts).errors.len() == 0,
        parse_outcome(ts) matches Ok(statements) ==> statements == parse_all(ts).statements,
        parse_outcome(ts) matches Err(errors) ==> errors.len() > 0 && errors == parse_all(
            ts,
        ).errors,
{
}

/// Parsing is a function of the text. Two parses of the same text, each
/// made by a scanner from the start of the text and a parser over it, give
/// the same program or the same errors.
pub proof fn lemma_parse_is_idempotent(
    source: Seq<char>,
    first: Result<Program, ParserErrorList>,
    second: Result<Program, ParserErrorList>,
)
    requires
        outcome_view(first) == parse_outcome(tokens_from(source, 0)),
        outcome_view(second) == parse_outcome(tokens_from(source, 0)),
    ensures
        first is Ok <==> second is Ok,
        outcome_view(first) == outcome_view(second),
{
}

/// A syntax error: what was expected and what was found, and the token at
/// which the parser met it.
#[derive(Debug)]
pub struct ParserError {
    message: String,
    token: Token,
}

impl View for ParserError {
    type V = ParserErrorView;

    closed spec fn view(&self) -> ParserErrorView {
        ParserErrorView { message: self.message@, token: self.token@ }
    }
}

impl ParserError {
    /// The error with the message `message` at `token`.
    pub fn new(message: String, token: Token) -> (error: ParserError)
        ensures
            error@ == (ParserErrorView { message: message@, token: token@ }),
    {
        ParserError { message, token }
    }

    /// The error that a token of another kind stands where one of kind
    /// `expected` has to be.
    fn unexpected(expected: TokenType, found: &Token) -> (error: ParserError)
        ensures
            error@ == (ParserErrorView {
                message: expectation_message(expected, found@.kind),
                token: found@,
            }),
    {
        let mut message = String::from_str("Expected next token to be of type \"");
        message.append(expected.get_name());
        message.append("\", but got \"");
        message.append(found.get_type().get_name());
        message.append("\"");
        ParserError::new(message, found.clone())
    }

    /// The error that no statement starts with the token `found`.
    fn unknown_statement(found: &Token) -> (error: ParserError)
        ensures
            error@ == (ParserErrorView {
                message: unknown_statement_message(found@.kind),
                token: found@,
            }),
    {
        let mut message = String::from_str("Unknown token type for statement: ");
        message.append(found.get_type().get_name());
        ParserError::new(message, found.clone())
    }

    /// What was expected, and what was found.
    pub fn get_message(&self) -> (message: &String)
        ensures
            message@ == self@.message,
    {
        &self.message
    }

    /// The token at which the parser met the error.
    pub fn get_token(&self) -> (token: &Token)
        ensures
            token@ == self@.token,
    {
        &self.token
    }
}

/// The views of a sequence of errors, in order.
pub open spec fn error_views(errors: Seq<ParserError>) -> Seq<ParserErrorView> {
    errors.map_values(|error: ParserError| error@)
}

/// The errors of one parse, in the order in which the parser met them.
#[derive(Debug)]
pub struct ParserErrorList {
    errors: Vec<ParserError>,
}

impl View for ParserErrorList {
    type V = Seq<ParserErrorView>;

    closed spec fn view(&self) -> Seq<ParserErrorView> {
        error_views(self.errors@)
    }
}

impl ParserErrorList {
    /// The empty list.
    pub fn new() -> (list: ParserErrorList)
        ensures
            list@ == Seq::<ParserErrorView>::empty(),
    {
        let list = ParserErrorList { errors: Vec::<ParserError>::new() };
        list
    }

    /// Appends `error` to the list.
    pub fn add_error(&mut self, error: ParserError)
        ensures
            final(self)@ == old(self)@.push(error@),
    {
        self.errors.push(error);
    }

    /// The errors of the list, in order.
    pub fn get_errors(&self) -> (errors: &Vec<ParserError>)
        ensures
            error_views(errors@) == self@,
    {
        &self.errors
    }
}

/// What a parser is: the two tokens of its window, and its scanner.
pub struct ParserView {
    pub current: TokenView,
    pub peek: TokenView,
    pub lexer: LexerView,
}

impl ParserView {
    /// The scanner stands inside its text, and past the end of input there
    /// is nothing but the end of input: once a token of the window is the
    /// end-of-input token, so is every token after it.
    pub open spec fn wf(self) -> bool {
        &&& self.lexer.cursor <= self.lexer.source.len()
        &&& self.peek.kind is Eof ==> scan(self.lexer.source, self.lexer.cursor).token == self.peek
        &&& self.current.kind is Eof ==> self.peek == self.current
    }

    /// The stream of tokens that the parser has before it: the two tokens
    /// of its window and those that its scanner has yet to give, up to and
    /// with the end-of-input token.
    pub open spec fn upcoming(self) -> Seq<TokenView> {
        if self.current.kind is Eof {
            seq![self.current]
        } else if self.peek.kind is Eof {
            seq![self.current, self.peek]
        } else {
            seq![self.current, self.peek] + tokens_from(self.lexer.source, self.lexer.cursor)
        }
    }

    /// The parser after one step: the window moves on by one token, which
    /// the scanner gives.
    pub open spec fn step(self) -> ParserView {
        let scanned = scan(self.lexer.source, self.lexer.cursor);
        ParserView {
            current: self.peek,
            peek: scanned.token,
            lexer: LexerView { source: self.lexer.source, cursor: scanned.next },
        }
    }
}

/// The tokens before a parser are a stream that starts with the window.
pub proof fn lemma_upcoming(parser: ParserView)
    requires
        parser.wf(),
    ensures
        is_stream(parser.upcoming()),
        parser.upcoming()[0] == parser.current,
        peek(parser.upcoming()) == parser.peek,
{
    lemma_tokens_from(parser.lexer.source, parser.lexer.cursor);
    let ts = parser.upcoming();
    if !(parser.current.kind is Eof) && !(parser.peek.kind is Eof) {
        let rest = tokens_from(parser.lexer.source, parser.lexer.cursor);
        // after the window come the tokens of the scanner
        assert forall|i: int| 2 <= i < ts.len() implies ts[i] == rest[i - 2] by {}
    }
}

/// One step of the parser steps over one token of the stream before it.
pub proof fn lemma_step(parser: ParserView)
    requires
        parser.wf(),
    ensures
        parser.step().wf(),
        parser.step().upcoming() == advance(parser.upcoming()),
{
    let source = parser.lexer.source;
    let cursor = parser.lexer.cursor;
    lemma_scan(source, cursor);
    lemma_end_of_input(source, cursor);
    let scanned = scan(source, cursor);
    if !(parser.current.kind is Eof) && !(parser.peek.kind is Eof) {
        // the stream loses its first token, and the token that the scanner
        // gives is the first of those it had yet to give
        let rest = tokens_from(source, cursor);
        assert((seq![parser.current, parser.peek] + rest).drop_first() =~= seq![parser.peek]
            + rest);
        if !(scanned.token.kind is Eof) {
            assert(seq![parser.peek] + rest =~= seq![parser.peek, scanned.token] + tokens_from(
                source,
                scanned.next,
            ));
        }
    }
}

/// The views of the two possible results of a parse.
pub open spec fn outcome_view(result: Result<Program, ParserErrorList>) -> Result<
    Seq<StatementView>,
    Seq<ParserErrorView>,
> {
    match result {
        Ok(program) => Ok(program@),
        Err(errors) => Err(errors@),
    }
}

/// The views of the two possible results of parsing one statement.
pub open spec fn statement_view(result: Result<Statement, ParserError>) -> Result<
    StatementView,
    ParserErrorView,
> {
    match result {
        Ok(statement) => Ok(statement@),
        Err(error) => Err(error@),
    }
}

/// A statement parser over the tokens of a scanner, which it reads
/// through a window of two tokens.
#[derive(Debug)]
pub struct Parser {
    lexer: Lexer,
    current_token: Token,
    next_token: Token,
}

impl View for Parser {
    type V = ParserView;

    closed spec fn view(&self) -> ParserView {
        ParserView { current: self.current_token@, peek: self.next_token@, lexer: self.lexer@ }
    }
}

impl Clone for Parser {
    fn clone(&self) -> (copy: Parser)
        ensures
            copy == *self,
    {
        Parser {
            lexer: self.lexer.clone(),
            current_token: self.current_token.clone(),
            next_token: self.next_token.clone(),
        }
    }
}

impl Parser {
    /// The scanner of the parser is well formed, and so is the view.
    pub open spec fn wf(&self) -> bool {
        &&& self.scanner_wf()
        &&& self@.wf()
    }

    pub closed spec fn scanner_wf(&self) -> bool {
        self.lexer.wf()
    }

    /// A parser over the tokens that `lexer` has yet to give. Its window
    /// holds the first two of them.
    pub fn new(lexer: Lexer) -> (parser: Parser)
        requires
            lexer.wf(),
        ensures
            parser.wf(),
            parser@.upcoming() == tokens_from(lexer@.source, lexer@.cursor),
    {
        let mut parser = Parser {
            lexer,
            current_token: Token::new(TokenType::Eof, 0),
            next_token: Token::new(TokenType::Eof, 0),
        };

        // fill the window with the first two tokens
        parser.next_token();
        parser.next_token();

        proof {
            let source = lexer@.source;
            let first = scan(source, lexer@.cursor);
            lemma_scan(source, lexer@.cursor);
            lemma_end_of_input(source, lexer@.cursor);
            lemma_scan(source, first.next);
            lemma_end_of_input(source, first.next);
            let second = scan(source, first.next);
            lemma_scan(source, second.next);
            lemma_end_of_input(source, second.next);
            // the window holds the first two tokens of the stream, or
            // the end of input where the stream is shorter
            let stream = tokens_from(source, lexer@.cursor);
            if !(first.token.kind is Eof) {
                let after_first = tokens_from(source, first.next);
                assert(stream == seq![first.token] + after_first);
                if !(second.token.kind is Eof) {
                    assert(after_first == seq![second.token] + tokens_from(source, second.next));
                }
            }
            assert(parser@.upcoming() =~= stream);
        }
        parser
    }

    /// Moves the window on by one token, which the scanner gives.
    fn next_token(&mut self)
        requires
            old(self).scanner_wf(),
        ensures
            final(self).scanner_wf(),
            final(self)@ == old(self)@.step(),
    {
        self.current_token = self.next_token.clone();
        self.next_token = self.lexer.next_token();
    }

    /// Steps over one token if the token after the current one is of kind
    /// `expected_type`. If it is not, this is an error at that token, and
    /// the parser stays where it is.
    fn expect_next_token(&mut self, expected_type: TokenType) -> (result: Result<
        (),
        ParserError,
    >)
        requires
            old(self).wf(),
        ensures
            final(self).wf(),
            match expect(old(self)@.upcoming(), expected_type) {
                Ok(rest) => result is Ok && final(self)@.upcoming() == rest,
                Err(error) => result is Err && result->Err_0@ == error && final(self)@ == old(
                    self,
                )@,
            },
    {
        proof {
            lemma_upcoming(self@);
            lemma_step(self@);
        }
        if self.next_token.get_type() == expected_type {
            self.next_token();
            Ok(())
        } else {
            Err(ParserError::unexpected(expected_type, &self.next_token))
        }
    }

    /// Moves on until the current token is a semicolon or the end of input.
    fn skip_statement(&mut self)
        requires
            old(self).wf(),
        ensures
            final(self).wf(),
            final(self)@.upcoming() == skip_to_end(old(self)@.upcoming()),
    {
        proof {
            lemma_upcoming(self@);
        }
        while !(self.current_token.get_type() == TokenType::Semicolon
            || self.current_token.get_type() == TokenType::Eof)
            invariant
                self.wf(),
                is_stream(self@.upcoming()),
                self@.upcoming()[0] == self@.current,
                skip_to_end(self@.upcoming()) == skip_to_end(old(self)@.upcoming()),
            decreases self@.upcoming().len(),
        {
            proof {
                lemma_step(self@);
                lemma_advance(self@.upcoming());
            }
            self.next_token();
            proof {
                lemma_upcoming(self@);
            }
        }
    }

    /// Parses the statement at the current token.
    fn parse_statement(&mut self) -> (result: Result<Statement, ParserError>)
        requires
            old(self).wf(),
        ensures
            final(self).wf(),
            statement_view(result) == parse_one(old(self)@.upcoming()).result,
            final(self)@.upcoming() == parse_one(old(self)@.upcoming()).rest,
    {
        proof {
            lemma_upcoming(self@);
        }
        match self.current_token.get_type() {
            TokenType::Let => self.parse_let_statement(),
            TokenType::Return => self.parse_return_statement(),
            _ => Err(ParserError::unknown_statement(&self.current_token)),
        }
    }

    /// Parses a binding. The current token is `let`.
    fn parse_let_statement(&mut self) -> (result: Result<Statement, ParserError>)
        requires
            old(self).wf(),
        ensures
            final(self).wf(),
            statement_view(result) == parse_let(old(self)@.upcoming()).result,
            final(self)@.upcoming() == parse_let(old(self)@.upcoming()).rest,
    {
        proof {
            lemma_upcoming(self@);
        }
        let token = self.current_token.clone();

        match self.expect_next_token(TokenType::Ident) {
            Err(error) => {
                return Err(error);
            },
            Ok(()) => {},
        }

        proof {
            lemma_upcoming(self@);
        }
        let identifier = Identifier::new(
            self.current_token.clone(),
            self.current_token.get_text(),
        );

        match self.expect_next_token(TokenType::Assign) {
            Err(error) => {
                return Err(error);
            },
            Ok(()) => {},
        }

        // the value is not parsed: pass over it
        self.skip_statement();

        Ok(Statement::Let { token, name: identifier })
    }

    /// Parses a return. The current token is `return`.
    fn parse_return_statement(&mut self) -> (result: Result<Statement, ParserError>)
        requires
            old(self).wf(),
        ensures
            final(self).wf(),
            statement_view(result) == parse_return(old(self)@.upcoming()).result,
            final(self)@.upcoming() == parse_return(old(self)@.upcoming()).rest,
    {
        proof {
            lemma_upcoming(self@);
        }
        let token = self.current_token.clone();

        // the value is not parsed: pass over it
        self.skip_statement();

        Ok(Statement::Return { token })
    }

    /// Parses the whole stream. Every statement is parsed and every error
    /// is recorded: an error ends the statement it is in, not the parse.
    /// The result is the program if there was no error, and else the
    /// errors, of which there is then at least one.
    pub fn parse_program(self) -> (result: Result<Program, ParserErrorList>)
        requires
            self.wf(),
        ensures
            outcome_view(result) == parse_outcome(self@.upcoming()),
            result matches Err(errors) ==> errors@.len() > 0,
    {
        let mut parser = self;
        let mut program = Program::new();
        let mut errors = ParserErrorList::new();

        proof {
            lemma_upcoming(parser@);
        }
        loop
            invariant_except_break
                parser.wf(),
                is_stream(parser@.upcoming()),
                parse_all(self@.upcoming()).statements == program@ + parse_all(
                    parser@.upcoming(),
                ).statements,
                parse_all(self@.upcoming()).errors == errors@ + parse_all(
                    parser@.upcoming(),
                ).errors,
            ensures
                parse_all(self@.upcoming()).statements == program@,
                parse_all(self@.upcoming()).errors == errors@,
            decreases parser@.upcoming().len(),
        {
            let ghost before = parser@.upcoming();
            let ghost statements = program@;
            let ghost found = errors@;
            let statement = parser.parse_statement();
            match statement {
                Ok(statement) => program.add_statement(statement),
                Err(e) => errors.add_error(e),
            }

            proof {
                lemma_parse_one(before);
                lemma_step(parser@);
                lemma_advance(parser@.upcoming());
            }
            parser.next_token();
            proof {
                lemma_upcoming(parser@);
                // what was parsed so far, and what the stream from here on
                // parses to, make up what the whole stream parses to
                if !(parser@.current.kind is Eof) {
                    let tail = parse_all(parser@.upcoming());
                    assert(statements + parse_all(before).statements =~= program@
                        + tail.statements);
                    assert(found + parse_all(before).errors =~= errors@ + tail.errors);
                }
            }
            if parser.current_token.get_type() == TokenType::Eof {
                break;
            }
        }

        if errors.get_errors().is_empty() {
            Ok(program)
        } else {
            Err(errors)
        }
    }
}

} // verus!
