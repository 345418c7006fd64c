//! The program tree: statements, the identifiers they introduce, and the
//! program that owns them.

use crate::token::{Token, TokenView};
use vstd::prelude::*;

verus! {

/// What an identifier is: its name, and the token that introduced it.
pub struct IdentifierView {
    pub token: TokenView,
    pub value: Seq<char>,
}

/// What a statement is.
pub enum StatementView {
    Let { token: TokenView, name: IdentifierView },
    Return { token: TokenView },
}

/// A name together with the token that introduced it.
#[derive(Debug)]
pub struct Identifier {
    token: Token,
    value: String,
}

impl View for Identifier {
    type V = IdentifierView;

    closed spec fn view(&self) -> IdentifierView {
        IdentifierView { token: self.token@, value: self.value@ }
    }
}

impl Identifier {
    pub fn new(token: Token, value: String) -> (identifier: Identifier)
        ensures
            identifier@ == (IdentifierView { token: token@, value: value@ }),
    {
        Identifier { token, value }
    }

    pub fn get_token(&self) -> (token: &Token)
        ensures
            token@ == self@.token,
    {
        &self.token
    }

    pub fn get_value(&self) -> (value: &String)
        ensures
            value@ == self@.value,
    {
        &self.value
    }
}

/// A node of the tree that holds nothing but its token.
#[derive(Debug)]
pub struct Node {
    pub token: Token,
}

impl View for Node {
    type V = TokenView;

    open spec fn view(&self) -> TokenView {
        self.token@
    }
}

/// The supported statement forms. The value of a binding and of a return
/// is not part of the tree.
#[derive(Debug)]
pub enum Statement {
    Let { token: Token, name: Identifier },
    Return { token: Token },
}

impl View for Statement {
    type V = StatementView;

    open spec fn view(&self) -> StatementView {
        match *self {
            Statement::Let { token, name } => StatementView::Let { token: token@, name: name@ },
            Statement::Return { token } => StatementView::Return { token: token@ },
        }
    }
}

/// The views of a sequence of statements, in order.
pub open spec fn statement_views(statements: Seq<Statement>) -> Seq<StatementView> {
    statements.map_values(|statement: Statement| statement@)
}

/// An ordered sequence of statements, in source order.
#[derive(Debug)]
pub struct Program {
    statements: Vec<Statement>,
}

impl View for Program {
    type V = Seq<StatementView>;

    closed spec fn view(&self) -> Seq<StatementView> {
        statement_views(self.statements@)
    }
}

impl Program {
    /// The empty program.
    pub fn new() -> (program: Program)
        ensures
            program@ == Seq::<StatementView>::empty(),
    {
        let program = Program { statements: Vec::new() };
        program
    }

    /// Appends `statement` to the program.
    pub fn add_statement(&mut self, statement: Statement)
        ensures
            final(self)@ == old(self)@.push(statement@),
    {
        self.statements.push(statement);
    }

    /// The statements of the program, in order.
    pub fn get_statements(&self) -> (statements: &Vec<Statement>)
        ensures
            statement_views(statements@) == self@,
    {
        &self.statements
    }
}

} // verus!
