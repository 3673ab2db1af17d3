//! The parser: it turns tokens into nodes of the arena.
//!
//! The grammar, with `{ .. }` for repetition and `[ .. ]` for an option:
//!
//! ```text
//! program    = { item } end-of-file
//! item       = function | statement
//! function   = "func" name "(" [ parameter { "," parameter } ] ")"
//!              [ "->" name ] "{" { statement } "}"
//! parameter  = name ":" name
//! statement  = ( let | while | return | "break" | "continue" | expression )
//!              [ ";" ]
//! let        = "let" name [ ":" name ] "=" expression
//! while      = "while" expression "{" { statement } "}"
//! return     = "return" [ expression ]
//! expression = name "=" expression | binary
//! binary     = unary { operator binary }
//! unary      = ( "-" | "~" ) unary | primary
//! primary    = number | "true" | "false" | "(" expression ")"
//!            | name "(" [ expression { "," expression } ] ")" | name
//!            | "if" expression "{" { statement } "}"
//!              [ "else" "{" { statement } "}" ]
//!            | "{" { statement } "}"
//! ```
//!
//! An operator takes as its right operand what binds tighter than itself;
//! power, which groups to the right, also what binds as tightly. Where a
//! token is not the one that the grammar asks for, the parser notes it and
//! goes on; where no expression can start, it leaves an error node.
//!
//! What each rule makes of the tokens is said by the function of its name in
//! `grammar`.
//!
//! The parser reads up to the end-of-file token and adds none: tokens that
//! do not end with it cannot be parsed, and `Parser::can_parse` tells.

use vstd::prelude::*;
use crate::compilation_unit::FunctionIdx;
use crate::definitions::grammar::{
    Built, Diagnostic, Parsed, arguments, bare_statement, binary, binary_operator_of, block, body,
    call, else_branch, ends_with_eof, expression, expression_statement, function, if_expression,
    item, let_statement, operators, parameter_list, parameters, primary, program, return_statement,
    return_type, return_value, statement, statements, step, type_annotation, unary,
    unary_operator_of, while_statement, with_note,
};
use crate::definitions::grammar_laws::lemma_program_sound;
use crate::definitions::lexer::{Token, TokenKind};
use crate::definitions::{
    Ast, BinOpAssociativity, BinOpKind, BinOperator, Body, ElseBranch, ExprId, FuncDeclParameter,
    FunctionReturnTypeSyntax, ItemId, StaticTypeAnnotation, StmtId, UnOpKind, UnOperator,
    exprs_below, stmts_below,
};

verus! {

/// A counter that goes up by one at a time.
#[derive(Debug, Clone)]
pub struct Counter {
    value: usize,
}

impl View for Counter {
    type V = nat;

    closed spec fn view(&self) -> nat {
        self.value as nat
    }
}

impl Counter {
    pub fn new() -> (r: Self)
        ensures
            r@ == 0,
    {
        Self { value: 0 }
    }

    pub fn increment(&mut self)
        requires
            old(self)@ < usize::MAX,
        ensures
            final(self)@ == old(self)@ + 1,
    {
        self.value = self.value + 1;
    }

    pub fn get_value(&self) -> (r: usize)
        ensures
            r == self@,
    {
        self.value
    }
}

/// The tokens without those that are white space.
pub open spec fn without_whitespace(tokens: Seq<Token>) -> Seq<Token>
    decreases tokens.len(),
{
    if tokens.len() == 0 {
        Seq::empty()
    } else if tokens.last().kind == TokenKind::Whitespace {
        without_whitespace(tokens.drop_last())
    } else {
        without_whitespace(tokens.drop_last()).push(tokens.last())
    }
}

/// Reads tokens and appends what they spell to an arena.
pub struct Parser {
    tokens: Vec<Token>,
    current: Counter,
    diagnostics: Vec<Diagnostic>,
}

impl Parser {
    /// The tokens that the parser reads, none of them white space.
    pub closed spec fn tokens(&self) -> Seq<Token> {
        self.tokens@
    }

    /// The place of the token to be read next.
    pub closed spec fn position(&self) -> nat {
        self.current@
    }

    /// The tokens found out of place so far.
    pub closed spec fn diagnostics(&self) -> Seq<Diagnostic> {
        self.diagnostics@
    }

    /// The tokens end with the end of the file, and the position is one of
    /// theirs.
    pub open spec fn wf(&self) -> bool {
        &&& ends_with_eof(self.tokens())
        &&& self.position() < self.tokens().len()
    }

    /// Whether the token to be read next is the end of the file.
    pub open spec fn at_end(&self) -> bool {
        self.tokens()[self.position() as int].kind == TokenKind::Eof
    }

    /// What has been built: the arena, and the notes of this parser.
    pub open spec fn built(&self, ast: &Ast) -> Built {
        Built { arena: ast@, diagnostics: self.diagnostics() }
    }

    /// Whether `after` is this parser further on: with the same tokens, and
    /// at the same place or behind it.
    pub open spec fn advanced_to(&self, after: &Parser) -> bool {
        &&& after.wf()
        &&& after.tokens() == self.tokens()
        &&& self.position() <= after.position()
    }

    /// Whether `after` is this parser further on, with at least one token
    /// read unless there was none left to read.
    pub open spec fn progressed_to(&self, after: &Parser) -> bool {
        &&& self.advanced_to(after)
        &&& self.at_end() || self.position() < after.position()
    }

    /// Whether `after` and `arena` are what this parser and its arena have
    /// become when a rule has read and built what `parsed` says.
    pub open spec fn has_read<T>(&self, after: &Parser, arena: &Ast, parsed: Parsed<T>) -> bool {
        &&& after.position() == self.position() + parsed.advance
        &&& after.built(arena) == parsed.built
    }

    /// A parser for the given tokens, at the first of them. White space is
    /// left out; the other tokens are kept as they are and in their order.
    /// The parser can parse where they end with the end of the file.
    pub fn new(tokens: Vec<Token>) -> (r: Self)
        ensures
            r.tokens() == without_whitespace(tokens@),
            r.position() == 0,
            r.diagnostics() == Seq::<Diagnostic>::empty(),
            r.wf() <==> ends_with_eof(without_whitespace(tokens@)),
    {
        let mut kept: Vec<Token> = Vec::new();
        let mut i: usize = 0;
        assert(tokens@.take(0) =~= Seq::<Token>::empty());
        while i < tokens.len()
            invariant
                i <= tokens.len(),
                kept@ == without_whitespace(tokens@.take(i as int)),
            decreases tokens.len() - i,
        {
            proof {
                let longer = tokens@.take(i + 1);
                assert(longer.drop_last() =~= tokens@.take(i as int));
                assert(longer.last() == tokens@[i as int]);
            }
            if tokens[i].kind != TokenKind::Whitespace {
                kept.push(tokens[i].clone());
            }
            i = i + 1;
        }
        assert(tokens@.take(i as int) =~= tokens@);
        Self { tokens: kept, current: Counter::new(), diagnostics: Vec::new() }
    }

    /// Whether the parser can parse: its tokens end with the end of the
    /// file, and it has not left them.
    pub fn can_parse(&self) -> (r: bool)
        ensures
            r == self.wf(),
    {
        let count: usize = self.tokens.len();
        count > 0 && self.tokens[count - 1].kind == TokenKind::Eof && self.current.get_value()
            < count
    }

    /// The tokens found out of place so far.
    pub fn diagnostics_found(&self) -> (r: &Vec<Diagnostic>)
        ensures
            r@ == self.diagnostics(),
    {
        &self.diagnostics
    }

    /// Parses the whole input: item after item, up to the end of the file.
    /// The arena and the notes become what the grammar says; nothing that
    /// was in them is changed, and the arena stays well-formed.
    pub fn parse(&mut self, ast: &mut Ast)
        requires
            old(self).wf(),
            old(ast).wf(),
        ensures
            old(self).advanced_to(final(self)),
            final(self).at_end(),
            final(ast).wf(),
            old(self).has_read(
                final(self),
                final(ast),
                program(old(self).tokens(), old(self).position(), old(self).built(old(ast))),
            ),
            old(self).built(old(ast)).kept_in(final(self).built(final(ast))),
    {
        proof {
            lemma_program_sound(self.tokens(), self.position(), self.built(ast));
        }
        loop
            invariant
                old(self).advanced_to(self),
                ast.wf(),
                old(ast).no_longer_than(ast),
                ({
                    let whole = program(
                        old(self).tokens(),
                        old(self).position(),
                        old(self).built(old(ast)),
                    );
                    let rest = program(self.tokens(), self.position(), self.built(ast));
                    &&& whole.advance == self.position() - old(self).position() + rest.advance
                    &&& whole.built == rest.built
                }),
            ensures
                self.at_end(),
            decreases self.tokens().len() - self.position(),
        {
            match self.next_item(ast) {
                Some(_) => {},
                None => {
                    break ;
                },
            }
        }
    }

    /// Parses the next item, unless the end of the file has been reached.
    fn next_item(&mut self, ast: &mut Ast) -> (r: Option<ItemId>)
        requires
            old(self).wf(),
            old(ast).wf(),
        ensures
            old(self).progressed_to(final(self)),
            final(ast).wf(),
            old(ast).no_longer_than(final(ast)),
            match r {
                None => old(self).at_end() && *final(self) == *old(self) && *final(ast) == *old(
                    ast,
                ),
                Some(id) => {
                    let parsed = item(
                        old(self).tokens(),
                        old(self).position(),
                        old(self).built(old(ast)),
                    );
                    &&& !old(self).at_end()
                    &&& old(self).has_read(final(self), final(ast), parsed)
                    &&& id == parsed.value
                },
            },
    {
        if self.is_at_end() {
            return None;
        }
        Some(self.parse_item(ast))
    }

    fn is_at_end(&self) -> (r: bool)
        requires
            self.wf(),
        ensures
            r == self.at_end(),
    {
        self.current().kind == TokenKind::Eof
    }

    fn parse_item(&mut self, ast: &mut Ast) -> (r: ItemId)
        requires
            old(self).wf(),
            old(ast).wf(),
        ensures
            old(self).progressed_to(final(self)),
            final(ast).wf(),
            old(ast).no_longer_than(final(ast)),
            ({
                let parsed = item(
                    old(self).tokens(),
                    old(self).position(),
                    old(self).built(old(ast)),
                );
                old(self).has_read(final(self), final(ast), parsed) && r == parsed.value
            }),
    {
        match self.current().kind {
            TokenKind::Function => self.parse_func_item(ast),
            _ => {
                let id = self.parse_statement(ast);
                ast.statement_item(id)
            },
        }
    }

    fn parse_func_item(&mut self, ast: &mut Ast) -> (r: ItemId)
        requires
            old(self).wf(),
            old(ast).wf(),
            old(self).tokens()[old(self).position() as int].kind == TokenKind::Function,
        ensures
            old(self).progressed_to(final(self)),
            final(ast).wf(),
            old(ast).no_longer_than(final(ast)),
            ({
                let parsed = function(
                    old(self).tokens(),
                    old(self).position(),
                    old(self).built(old(ast)),
                );
                old(self).has_read(final(self), final(ast), parsed) && r == parsed.value
            }),
    {
        let func_keyword = self.consume_and_check(TokenKind::Function);
        let identifier = self.consume_and_check(TokenKind::Identifier);
        let parameters = self.parse_parameters(ast);
        let return_type = self.parse_optional_return_type(ast);
        let body = self.parse_body(ast);
        ast.func_item(
            func_keyword,
            identifier,
            parameters,
            body,
            return_type,
            FunctionIdx::unreachable(),
        )
    }

    /// Parses the parameters of a function, with their parentheses.
    fn parse_parameters(&mut self, ast: &Ast) -> (r: Vec<FuncDeclParameter>)
        requires
            old(self).wf(),
        ensures
            old(self).advanced_to(final(self)),
            ({
                let parsed = parameters(
                    old(self).tokens(),
                    old(self).position(),
                    old(self).built(ast),
                );
                old(self).has_read(final(self), ast, parsed) && r@ == parsed.value
            }),
    {
        self.consume_and_check(TokenKind::OpenParenthesis);
        let list = self.parse_parameter_list(ast);
        self.consume_and_check(TokenKind::CloseParenthesis);
        list
    }

    /// Parses the parameters of a function, up to the closing parenthesis
    /// or the end of the file.
    fn parse_parameter_list(&mut self, ast: &Ast) -> (r: Vec<FuncDeclParameter>)
        requires
            old(self).wf(),
        ensures
            old(self).advanced_to(final(self)),
            ({
                let parsed = parameter_list(
                    old(self).tokens(),
                    old(self).position(),
                    old(self).built(ast),
                    Seq::empty(),
                );
                old(self).has_read(final(self), ast, parsed) && r@ == parsed.value
            }),
    {
        let mut list: Vec<FuncDeclParameter> = Vec::new();
        while self.current().kind != TokenKind::CloseParenthesis && !self.is_at_end()
            invariant
                old(self).advanced_to(self),
                ({
                    let whole = parameter_list(
                        old(self).tokens(),
                        old(self).position(),
                        old(self).built(ast),
                        Seq::empty(),
                    );
                    let rest = parameter_list(
                        self.tokens(),
                        self.position(),
                        self.built(ast),
                        list@,
                    );
                    &&& whole.advance == self.position() - old(self).position() + rest.advance
                    &&& whole.built == rest.built
                    &&& whole.value == rest.value
                }),
            decreases self.tokens().len() - self.position(),
        {
            let ghost before = parameter_list(
                self.tokens(),
                self.position(),
                self.built(ast),
                list@,
            );
            let ghost start = self.position();
            let identifier = self.consume_and_check(TokenKind::Identifier);
            let colon = self.consume_and_check(TokenKind::Colon);
            let type_token = self.consume_and_check(TokenKind::Identifier);
            list.push(
                FuncDeclParameter {
                    identifier,
                    type_annotation: StaticTypeAnnotation::new(colon, type_token),
                },
            );
            if self.current().kind == TokenKind::Comma {
                self.consume();
            }
            proof {
                let rest = parameter_list(self.tokens(), self.position(), self.built(ast), list@);
                assert(before.advance == self.position() - start + rest.advance);
                assert(before.built == rest.built);
                assert(before.value == rest.value);
            }
        }
        list
    }

    /// Parses the return type of a function, if one is given.
    fn parse_optional_return_type(&mut self, ast: &Ast) -> (r: Option<FunctionReturnTypeSyntax>)
        requires
            old(self).wf(),
        ensures
            old(self).advanced_to(final(self)),
            ({
                let parsed = return_type(
                    old(self).tokens(),
                    old(self).position(),
                    old(self).built(ast),
                );
                old(self).has_read(final(self), ast, parsed) && r == parsed.value
            }),
    {
        if self.current().kind == TokenKind::Arrow {
            let arrow = self.consume();
            let type_token = self.consume_and_check(TokenKind::Identifier);
            Some(FunctionReturnTypeSyntax::new(arrow, type_token))
        } else {
            None
        }
    }

    /// Parses a type annotation, if one is given.
    fn parse_optional_type_annotation(&mut self, ast: &Ast) -> (r: Option<StaticTypeAnnotation>)
        requires
            old(self).wf(),
        ensures
            old(self).advanced_to(final(self)),
            ({
                let parsed = type_annotation(
                    old(self).tokens(),
                    old(self).position(),
                    old(self).built(ast),
                );
                old(self).has_read(final(self), ast, parsed) && r == parsed.value
            }),
    {
        if self.current().kind == TokenKind::Colon {
            let colon = self.consume();
            let type_token = self.consume_and_check(TokenKind::Identifier);
            Some(StaticTypeAnnotation::new(colon, type_token))
        } else {
            None
        }
    }

    /// Parses statements in braces.
    fn parse_body(&mut self, ast: &mut Ast) -> (r: Body)
        requires
            old(self).wf(),
            old(ast).wf(),
        ensures
            old(self).advanced_to(final(self)),
            final(ast).wf(),
            old(ast).no_longer_than(final(ast)),
            stmts_below(r@, final(ast).statements.len() as int),
            ({
                let parsed = body(
                    old(self).tokens(),
                    old(self).position(),
                    old(self).built(old(ast)),
                );
                old(self).has_read(final(self), final(ast), parsed) && r@ == parsed.value
            }),
        decreases old(self).tokens().len() - old(self).position(), 11nat,
    {
        self.consume_and_check(TokenKind::OpenBrace);
        let statements = self.parse_statements(ast);
        self.consume_and_check(TokenKind::CloseBrace);
        statements
    }

    /// Parses statements up to a closing brace or the end of the file.
    fn parse_statements(&mut self, ast: &mut Ast) -> (r: Body)
        requires
            old(self).wf(),
            old(ast).wf(),
        ensures
            old(self).advanced_to(final(self)),
            final(ast).wf(),
            old(ast).no_longer_than(final(ast)),
            stmts_below(r@, final(ast).statements.len() as int),
            ({
                let parsed = statements(
                    old(self).tokens(),
                    old(self).position(),
                    old(self).built(old(ast)),
                    Seq::empty(),
                );
                old(self).has_read(final(self), final(ast), parsed) && r@ == parsed.value
            }),
        decreases old(self).tokens().len() - old(self).position(), 10nat,
    {
        let mut list: Vec<StmtId> = Vec::new();
        while self.current().kind != TokenKind::CloseBrace && !self.is_at_end()
            invariant
                old(self).advanced_to(self),
                ast.wf(),
                old(ast).no_longer_than(ast),
                stmts_below(list@, ast.statements.len() as int),
                ({
                    let whole = statements(
                        old(self).tokens(),
                        old(self).position(),
                        old(self).built(old(ast)),
                        Seq::empty(),
                    );
                    let rest = statements(
                        self.tokens(),
                        self.position(),
                        self.built(ast),
                        list@,
                    );
                    &&& whole.advance == self.position() - old(self).position() + rest.advance
                    &&& whole.built == rest.built
                    &&& whole.value == rest.value
                }),
            decreases self.tokens().len() - self.position(),
        {
            let statement = self.parse_statement(ast);
            list.push(statement);
        }
        list
    }

    /// Parses a statement and the semicolon behind it, if there is one.
    fn parse_statement(&mut self, ast: &mut Ast) -> (r: StmtId)
        requires
            old(self).wf(),
            old(ast).wf(),
        ensures
            old(self).progressed_to(final(self)),
            final(ast).wf(),
            old(ast).no_longer_than(final(ast)),
            r.index < final(ast).statements.len(),
            ({
                let parsed = statement(
                    old(self).tokens(),
                    old(self).position(),
                    old(self).built(old(ast)),
                );
                old(self).has_read(final(self), final(ast), parsed) && r == parsed.value
            }),
        decreases old(self).tokens().len() - old(self).position(), 9nat,
    {
        let statement = self.parse_bare_statement(ast);
        if self.current().kind == TokenKind::Semicolon {
            self.consume();
        }
        statement
    }

    /// Parses a statement of the kind that its first token announces.
    fn parse_bare_statement(&mut self, ast: &mut Ast) -> (r: StmtId)
        requires
            old(self).wf(),
            old(ast).wf(),
        ensures
            old(self).progressed_to(final(self)),
            final(ast).wf(),
            old(ast).no_longer_than(final(ast)),
            r.index < final(ast).statements.len(),
            ({
                let parsed = bare_statement(
                    old(self).tokens(),
                    old(self).position(),
                    old(self).built(old(ast)),
                );
                old(self).has_read(final(self), final(ast), parsed) && r == parsed.value
            }),
        decreases old(self).tokens().len() - old(self).position(), 8nat,
    {
        match self.current().kind {
            TokenKind::Let => self.parse_let_statement(ast),
            TokenKind::While => self.parse_while_statement(ast),
            TokenKind::Return => self.parse_return_statement(ast),
            TokenKind::Break => {
                let break_keyword = self.consume();
                ast.break_statement(break_keyword)
            },
            TokenKind::Continue => {
                let continue_keyword = self.consume();
                ast.continue_statement(continue_keyword)
            },
            _ => self.parse_expression_statement(ast),
        }
    }

    fn parse_let_statement(&mut self, ast: &mut Ast) -> (r: StmtId)
        requires
            old(self).wf(),
            old(ast).wf(),
            old(self).tokens()[old(self).position() as int].kind == TokenKind::Let,
        ensures
            old(self).progressed_to(final(self)),
            final(ast).wf(),
            old(ast).no_longer_than(final(ast)),
            r.index < final(ast).statements.len(),
            ({
                let parsed = let_statement(
                    old(self).tokens(),
                    old(self).position(),
                    old(self).built(old(ast)),
                );
                old(self).has_read(final(self), final(ast), parsed) && r == parsed.value
            }),
        decreases old(self).tokens().len() - old(self).position(), 7nat,
    {
        self.consume_and_check(TokenKind::Let);
        let identifier = self.consume_and_check(TokenKind::Identifier);
        let type_annotation = self.parse_optional_type_annotation(ast);
        self.consume_and_check(TokenKind::Equals);
        let initializer = self.parse_expression(ast);
        ast.let_statement(identifier, initializer, type_annotation)
    }

    fn parse_while_statement(&mut self, ast: &mut Ast) -> (r: StmtId)
        requires
            old(self).wf(),
            old(ast).wf(),
            old(self).tokens()[old(self).position() as int].kind == TokenKind::While,
        ensures
            old(self).progressed_to(final(self)),
            final(ast).wf(),
            old(ast).no_longer_than(final(ast)),
            r.index < final(ast).statements.len(),
            ({
                let parsed = while_statement(
                    old(self).tokens(),
                    old(self).position(),
                    old(self).built(old(ast)),
                );
                old(self).has_read(final(self), final(ast), parsed) && r == parsed.value
            }),
        decreases old(self).tokens().len() - old(self).position(), 7nat,
    {
        let while_keyword = self.consume();
        let condition = self.parse_expression(ast);
        let body = self.parse_body(ast);
        ast.while_statement(while_keyword, condition, body)
    }

    fn parse_return_statement(&mut self, ast: &mut Ast) -> (r: StmtId)
        requires
            old(self).wf(),
            old(ast).wf(),
            old(self).tokens()[old(self).position() as int].kind == TokenKind::Return,
        ensures
            old(self).progressed_to(final(self)),
            final(ast).wf(),
            old(ast).no_longer_than(final(ast)),
            r.index < final(ast).statements.len(),
            ({
                let parsed = return_statement(
                    old(self).tokens(),
                    old(self).position(),
                    old(self).built(old(ast)),
                );
                old(self).has_read(final(self), final(ast), parsed) && r == parsed.value
            }),
        decreases old(self).tokens().len() - old(self).position(), 7nat,
    {
        let return_keyword = self.consume_and_check(TokenKind::Return);
        let return_value = self.parse_return_value(ast);
        ast.return_statement(return_keyword, return_value)
    }

    /// Parses what a `return` returns, if anything.
    fn parse_return_value(&mut self, ast: &mut Ast) -> (r: Option<ExprId>)
        requires
            old(self).wf(),
            old(ast).wf(),
        ensures
            old(self).advanced_to(final(self)),
            final(ast).wf(),
            old(ast).no_longer_than(final(ast)),
            r matches Some(value) ==> value.index < final(ast).expressions.len(),
            ({
                let parsed = return_value(
                    old(self).tokens(),
                    old(self).position(),
                    old(self).built(old(ast)),
                );
                old(self).has_read(final(self), final(ast), parsed) && r == parsed.value
            }),
        decreases old(self).tokens().len() - old(self).position(), 6nat,
    {
        let kind = self.current().kind;
        if kind == TokenKind::Semicolon || kind == TokenKind::CloseBrace || kind
            == TokenKind::Eof {
            None
        } else {
            Some(self.parse_expression(ast))
        }
    }

    fn parse_expression_statement(&mut self, ast: &mut Ast) -> (r: StmtId)
        requires
            old(self).wf(),
            old(ast).wf(),
        ensures
            old(self).progressed_to(final(self)),
            final(ast).wf(),
            old(ast).no_longer_than(final(ast)),
            r.index < final(ast).statements.len(),
            ({
                let parsed = expression_statement(
                    old(self).tokens(),
                    old(self).position(),
                    old(self).built(old(ast)),
                );
                old(self).has_read(final(self), final(ast), parsed) && r == parsed.value
            }),
        decreases old(self).tokens().len() - old(self).position(), 7nat,
    {
        let expression = self.parse_expression(ast);
        ast.expression_statement(expression)
    }

    /// Parses an expression: an assignment, or an expression of operators
    /// and operands.
    fn parse_expression(&mut self, ast: &mut Ast) -> (r: ExprId)
        requires
            old(self).wf(),
            old(ast).wf(),
        ensures
            old(self).progressed_to(final(self)),
            final(ast).wf(),
            old(ast).no_longer_than(final(ast)),
            r.index < final(ast).expressions.len(),
            ({
                let parsed = expression(
                    old(self).tokens(),
                    old(self).position(),
                    old(self).built(old(ast)),
                );
                old(self).has_read(final(self), final(ast), parsed) && r == parsed.value
            }),
        decreases old(self).tokens().len() - old(self).position(), 5nat,
    {
        if self.current().kind == TokenKind::Identifier && self.peek(1).kind == TokenKind::Equals {
            let identifier = self.consume();
            let equals = self.consume();
            let value = self.parse_expression(ast);
            ast.assignment_expression(identifier, equals, value)
        } else {
            self.parse_binary_expression(ast, 0)
        }
    }

    /// Parses an operand and the operators behind it that bind at least as
    /// tightly as `precedence`, each with its right operand.
    fn parse_binary_expression(&mut self, ast: &mut Ast, precedence: u8) -> (r: ExprId)
        requires
            old(self).wf(),
            old(ast).wf(),
        ensures
            old(self).progressed_to(final(self)),
            final(ast).wf(),
            old(ast).no_longer_than(final(ast)),
            r.index < final(ast).expressions.len(),
            ({
                let parsed = binary(
                    old(self).tokens(),
                    old(self).position(),
                    old(self).built(old(ast)),
                    precedence as int,
                );
                old(self).has_read(final(self), final(ast), parsed) && r == parsed.value
            }),
        decreases old(self).tokens().len() - old(self).position(), 4nat,
    {
        let mut left = self.parse_unary_expression(ast);
        loop
            invariant
                old(self).progressed_to(self),
                ast.wf(),
                old(ast).no_longer_than(ast),
                left.index < ast.expressions.len(),
                ({
                    let whole = binary(
                        old(self).tokens(),
                        old(self).position(),
                        old(self).built(old(ast)),
                        precedence as int,
                    );
                    let rest = operators(
                        self.tokens(),
                        self.position(),
                        self.built(ast),
                        left,
                        precedence as int,
                    );
                    &&& whole.advance == self.position() - old(self).position() + rest.advance
                    &&& whole.built == rest.built
                    &&& whole.value == rest.value
                }),
            ensures
                old(self).has_read(
                    self,
                    ast,
                    binary(
                        old(self).tokens(),
                        old(self).position(),
                        old(self).built(old(ast)),
                        precedence as int,
                    ),
                ),
                left == binary(
                    old(self).tokens(),
                    old(self).position(),
                    old(self).built(old(ast)),
                    precedence as int,
                ).value,
            decreases self.tokens().len() - self.position(),
        {
            let kind = match Self::binary_operator(self.current().kind) {
                Some(kind) => kind,
                None => {
                    break ;
                },
            };
            if kind.precedence() < precedence {
                break ;
            }
            let token = self.consume();
            let right = match kind.associativity() {
                BinOpAssociativity::Right => self.parse_binary_expression(ast, kind.precedence()),
                BinOpAssociativity::Left => self.parse_binary_expression(
                    ast,
                    kind.precedence() + 1,
                ),
            };
            left = ast.binary_expression(BinOperator::new(kind, token), left, right);
        }
        left
    }

    fn parse_unary_expression(&mut self, ast: &mut Ast) -> (r: ExprId)
        requires
            old(self).wf(),
            old(ast).wf(),
        ensures
            old(self).progressed_to(final(self)),
            final(ast).wf(),
            old(ast).no_longer_than(final(ast)),
            r.index < final(ast).expressions.len(),
            ({
                let parsed = unary(
                    old(self).tokens(),
                    old(self).position(),
                    old(self).built(old(ast)),
                );
                old(self).has_read(final(self), final(ast), parsed) && r == parsed.value
            }),
        decreases old(self).tokens().len() - old(self).position(), 2nat,
    {
        match Self::unary_operator(self.current().kind) {
            Some(kind) => {
                let token = self.consume();
                let operand = self.parse_unary_expression(ast);
                ast.unary_expression(UnOperator::new(kind, token), operand)
            },
            None => self.parse_primary_expression(ast),
        }
    }

    fn parse_primary_expression(&mut self, ast: &mut Ast) -> (r: ExprId)
        requires
            old(self).wf(),
            old(ast).wf(),
        ensures
            old(self).progressed_to(final(self)),
            final(ast).wf(),
            old(ast).no_longer_than(final(ast)),
            r.index < final(ast).expressions.len(),
            ({
                let parsed = primary(
                    old(self).tokens(),
                    old(self).position(),
                    old(self).built(old(ast)),
                );
                old(self).has_read(final(self), final(ast), parsed) && r == parsed.value
            }),
        decreases old(self).tokens().len() - old(self).position(), 1nat,
    {
        match self.current().kind {
            TokenKind::Number(number) => {
                let token = self.consume();
                ast.number_expression(token, number)
            },
            TokenKind::True => {
                let token = self.consume();
                ast.boolean_expression(token, true)
            },
            TokenKind::False => {
                let token = self.consume();
                ast.boolean_expression(token, false)
            },
            TokenKind::OpenParenthesis => {
                let left_paren = self.consume();
                let inner = self.parse_expression(ast);
                let right_paren = self.consume_and_check(TokenKind::CloseParenthesis);
                ast.parenthesized_expression(left_paren, inner, right_paren)
            },
            TokenKind::Identifier => {
                if self.peek(1).kind == TokenKind::OpenParenthesis {
                    self.parse_call_expression(ast)
                } else {
                    let identifier = self.consume();
                    ast.variable_expression(identifier)
                }
            },
            TokenKind::If => self.parse_if_expression(ast),
            TokenKind::OpenBrace => self.parse_block_expression(ast),
            _ => {
                let found = self.consume();
                let span = found.span.clone();
                self.diagnostics.push(Diagnostic { expected: None, found });
                ast.error_expression(span)
            },
        }
    }

    fn parse_call_expression(&mut self, ast: &mut Ast) -> (r: ExprId)
        requires
            old(self).wf(),
            old(ast).wf(),
            old(self).tokens()[old(self).position() as int].kind == TokenKind::Identifier,
        ensures
            old(self).progressed_to(final(self)),
            final(ast).wf(),
            old(ast).no_longer_than(final(ast)),
            r.index < final(ast).expressions.len(),
            ({
                let parsed = call(
                    old(self).tokens(),
                    old(self).position(),
                    old(self).built(old(ast)),
                );
                old(self).has_read(final(self), final(ast), parsed) && r == parsed.value
            }),
        decreases old(self).tokens().len() - old(self).position(), 0nat,
    {
        let callee = self.consume();
        let left_paren = self.consume_and_check(TokenKind::OpenParenthesis);
        let list = self.parse_arguments(ast);
        let right_paren = self.consume_and_check(TokenKind::CloseParenthesis);
        ast.call_expression(callee, left_paren, list, right_paren)
    }

    /// Parses the arguments of a call, up to the closing parenthesis or the
    /// end of the file.
    fn parse_arguments(&mut self, ast: &mut Ast) -> (r: Vec<ExprId>)
        requires
            old(self).wf(),
            old(ast).wf(),
        ensures
            old(self).advanced_to(final(self)),
            final(ast).wf(),
            old(ast).no_longer_than(final(ast)),
            exprs_below(r@, final(ast).expressions.len() as int),
            ({
                let parsed = arguments(
                    old(self).tokens(),
                    old(self).position(),
                    old(self).built(old(ast)),
                    Seq::empty(),
                );
                old(self).has_read(final(self), final(ast), parsed) && r@ == parsed.value
            }),
        decreases old(self).tokens().len() - old(self).position(), 6nat,
    {
        let mut list: Vec<ExprId> = Vec::new();
        while self.current().kind != TokenKind::CloseParenthesis && !self.is_at_end()
            invariant
                old(self).advanced_to(self),
                ast.wf(),
                old(ast).no_longer_than(ast),
                exprs_below(list@, ast.expressions.len() as int),
                ({
                    let whole = arguments(
                        old(self).tokens(),
                        old(self).position(),
                        old(self).built(old(ast)),
                        Seq::empty(),
                    );
                    let rest = arguments(self.tokens(), self.position(), self.built(ast), list@);
                    &&& whole.advance == self.position() - old(self).position() + rest.advance
                    &&& whole.built == rest.built
                    &&& whole.value == rest.value
                }),
            decreases self.tokens().len() - self.position(),
        {
            let argument = self.parse_expression(ast);
            list.push(argument);
            if self.current().kind == TokenKind::Comma {
                self.consume();
            }
        }
        list
    }

    fn parse_if_expression(&mut self, ast: &mut Ast) -> (r: ExprId)
        requires
            old(self).wf(),
            old(ast).wf(),
            old(self).tokens()[old(self).position() as int].kind == TokenKind::If,
        ensures
            old(self).progressed_to(final(self)),
            final(ast).wf(),
            old(ast).no_longer_than(final(ast)),
            r.index < final(ast).expressions.len(),
            ({
                let parsed = if_expression(
                    old(self).tokens(),
                    old(self).position(),
                    old(self).built(old(ast)),
                );
                old(self).has_read(final(self), final(ast), parsed) && r == parsed.value
            }),
        decreases old(self).tokens().len() - old(self).position(), 0nat,
    {
        let if_keyword = self.consume();
        let condition = self.parse_expression(ast);
        let (then_branch, else_branch) = self.parse_branches(ast);
        ast.if_expression(if_keyword, condition, then_branch, else_branch)
    }

    /// Parses the branches of a conditional: a body, and behind `else`, if
    /// that follows, a second one.
    fn parse_branches(&mut self, ast: &mut Ast) -> (r: (Body, Option<ElseBranch>))
        requires
            old(self).wf(),
            old(ast).wf(),
        ensures
            old(self).advanced_to(final(self)),
            final(ast).wf(),
            old(ast).no_longer_than(final(ast)),
            stmts_below(r.0@, final(ast).statements.len() as int),
            r.1 matches Some(branch) ==> stmts_below(
                branch.body@,
                final(ast).statements.len() as int,
            ),
            ({
                let first = body(
                    old(self).tokens(),
                    old(self).position(),
                    old(self).built(old(ast)),
                );
                let second = else_branch(
                    old(self).tokens(),
                    old(self).position() + first.advance,
                    first.built,
                );
                &&& final(self).position() == old(self).position() + first.advance
                    + second.advance
                &&& final(self).built(final(ast)) == second.built
                &&& r.0@ == first.value
                &&& match r.1 {
                    Some(branch) => second.value == Some(branch@),
                    None => second.value is None,
                }
            }),
        decreases old(self).tokens().len() - old(self).position(), 13nat,
    {
        let then_branch = self.parse_body(ast);
        let else_branch = self.parse_optional_else(ast);
        (then_branch, else_branch)
    }

    /// Parses the second branch of a conditional, if one is given.
    fn parse_optional_else(&mut self, ast: &mut Ast) -> (r: Option<ElseBranch>)
        requires
            old(self).wf(),
            old(ast).wf(),
        ensures
            old(self).advanced_to(final(self)),
            final(ast).wf(),
            old(ast).no_longer_than(final(ast)),
            r matches Some(branch) ==> stmts_below(
                branch.body@,
                final(ast).statements.len() as int,
            ),
            ({
                let parsed = else_branch(
                    old(self).tokens(),
                    old(self).position(),
                    old(self).built(old(ast)),
                );
                &&& old(self).has_read(final(self), final(ast), parsed)
                &&& match r {
                    Some(branch) => parsed.value == Some(branch@),
                    None => parsed.value is None,
                }
            }),
        decreases old(self).tokens().len() - old(self).position(), 12nat,
    {
        if self.current().kind == TokenKind::Else {
            let else_keyword = self.consume();
            let body = self.parse_body(ast);
            Some(ElseBranch::new(else_keyword, body))
        } else {
            None
        }
    }

    fn parse_block_expression(&mut self, ast: &mut Ast) -> (r: ExprId)
        requires
            old(self).wf(),
            old(ast).wf(),
            old(self).tokens()[old(self).position() as int].kind == TokenKind::OpenBrace,
        ensures
            old(self).progressed_to(final(self)),
            final(ast).wf(),
            old(ast).no_longer_than(final(ast)),
            r.index < final(ast).expressions.len(),
            ({
                let parsed = block(
                    old(self).tokens(),
                    old(self).position(),
                    old(self).built(old(ast)),
                );
                old(self).has_read(final(self), final(ast), parsed) && r == parsed.value
            }),
        decreases old(self).tokens().len() - old(self).position(), 0nat,
    {
        let left_brace = self.consume();
        let statements = self.parse_statements(ast);
        let right_brace = self.consume_and_check(TokenKind::CloseBrace);
        ast.block_expression(left_brace, statements, right_brace)
    }

    fn binary_operator(kind: TokenKind) -> (r: Option<BinOpKind>)
        ensures
            r == binary_operator_of(kind),
    {
        match kind {
            TokenKind::Plus => Some(BinOpKind::Plus),
            TokenKind::Minus => Some(BinOpKind::Minus),
            TokenKind::Asterisk => Some(BinOpKind::Multiply),
            TokenKind::Slash => Some(BinOpKind::Divide),
            TokenKind::Percent => Some(BinOpKind::Modulo),
            TokenKind::DoubleAsterisk => Some(BinOpKind::Power),
            TokenKind::Ampersand => Some(BinOpKind::BitwiseAnd),
            TokenKind::Pipe => Some(BinOpKind::BitwiseOr),
            TokenKind::Caret => Some(BinOpKind::BitwiseXor),
            TokenKind::DoubleEquals => Some(BinOpKind::Equals),
            TokenKind::BangEquals => Some(BinOpKind::NotEquals),
            TokenKind::LessThan => Some(BinOpKind::LessThan),
            TokenKind::LessThanEquals => Some(BinOpKind::LessThanOrEqual),
            TokenKind::GreaterThan => Some(BinOpKind::GreaterThan),
            TokenKind::GreaterThanEquals => Some(BinOpKind::GreaterThanOrEqual),
            _ => None,
        }
    }

    fn unary_operator(kind: TokenKind) -> (r: Option<UnOpKind>)
        ensures
            r == unary_operator_of(kind),
    {
        match kind {
            TokenKind::Minus => Some(UnOpKind::Minus),
            TokenKind::Tilde => Some(UnOpKind::BitwiseNot),
            _ => None,
        }
    }

    /// The token to be read next.
    fn current(&self) -> (r: &Token)
        requires
            self.wf(),
        ensures
            *r == self.tokens()[self.position() as int],
    {
        &self.tokens[self.current.get_value()]
    }

    /// The token `offset` places behind the one to be read next, or the end
    /// of the file if there are not so many.
    fn peek(&self, offset: usize) -> (r: &Token)
        requires
            self.wf(),
        ensures
            *r == crate::definitions::grammar::peek_at(
                self.tokens(),
                self.position(),
                offset as nat,
            ),
    {
        let position = self.current.get_value();
        let last: usize = self.tokens.len() - 1;
        if offset > last - position {
            &self.tokens[last]
        } else {
            &self.tokens[position + offset]
        }
    }

    /// Reads a token: hands it out and moves behind it. The end of the file
    /// is handed out without a move.
    fn consume(&mut self) -> (r: Token)
        requires
            old(self).wf(),
        ensures
            old(self).progressed_to(final(self)),
            r == old(self).tokens()[old(self).position() as int],
            final(self).position() == old(self).position() + step(
                old(self).tokens(),
                old(self).position(),
            ),
            final(self).diagnostics() == old(self).diagnostics(),
    {
        let position = self.current.get_value();
        let token = self.tokens[position].clone();
        let last: usize = self.tokens.len() - 1;
        if position < last {
            self.current.increment();
        }
        token
    }

    /// Reads a token that ought to be of the class `kind`, and notes it if
    /// it is not.
    fn consume_and_check(&mut self, kind: TokenKind) -> (r: Token)
        requires
            old(self).wf(),
        ensures
            old(self).progressed_to(final(self)),
            r == old(self).tokens()[old(self).position() as int],
            final(self).position() == old(self).position() + step(
                old(self).tokens(),
                old(self).position(),
            ),
            final(self).diagnostics() == with_note(
                old(self).diagnostics(),
                old(self).tokens(),
                old(self).position(),
                kind,
            ),
    {
        let token = self.consume();
        if token.kind != kind {
            self.diagnostics.push(Diagnostic { expected: Some(kind), found: token.clone() });
        }
        token
    }
}

} // verus!
