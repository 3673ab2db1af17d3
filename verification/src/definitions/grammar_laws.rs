//! What holds of every rule of the grammar: it reads no further than the
//! last token, and it only adds to what has been built. No node that is in
//! the arena is changed by parsing, and no note is taken back.

use vstd::prelude::*;
use crate::definitions::grammar::{
    Built, Parsed, arguments, bare_statement, binary, binary_operator_of, block, body, call,
    else_branch, expression, expression_statement, function, if_expression, item, let_statement,
    made_expression, made_item, made_statement, operators, parameter_list, parameters, peek_at,
    primary, program, ready, remaining, return_statement, return_type, return_value,
    right_operand_precedence, statement, statements, step, type_annotation, unary,
    unary_operator_of, while_statement,
};
use crate::definitions::lexer::{Token, TokenKind};
use crate::definitions::shape::{ArenaModel, ExprShape, ItemShape, StmtShape};
use crate::definitions::{
    BinOperator, BinaryExpr, ExprId, FuncDeclParameter, StaticTypeAnnotation, StmtId,
};

verus! {

impl ArenaModel {
    /// Whether `later` holds every node of this arena, at its place and
    /// unchanged.
    pub open spec fn kept_in(self, later: ArenaModel) -> bool {
        &&& self.expressions.is_prefix_of(later.expressions)
        &&& self.statements.is_prefix_of(later.statements)
        &&& self.items.is_prefix_of(later.items)
    }
}

impl Built {
    /// Whether `later` holds every node and every note of this, at its
    /// place and unchanged.
    #[verifier::opaque]
    pub open spec fn kept_in(self, later: Built) -> bool {
        &&& self.arena.kept_in(later.arena)
        &&& self.diagnostics.is_prefix_of(later.diagnostics)
    }
}

/// Whether a rule that started at `pos` with `built` has stayed among the
/// tokens and has kept what was built.
pub open spec fn sound<T>(tokens: Seq<Token>, pos: nat, built: Built, parsed: Parsed<T>) -> bool {
    &&& ready(tokens, pos + parsed.advance)
    &&& built.kept_in(parsed.built)
}

/// Nothing that a rule does to what has been built takes anything away:
/// not a note, not a new node, and not one of these behind the other.
pub proof fn lemma_keeping()
    ensures
        forall|built: Built| #[trigger] built.kept_in(built),
        forall|first: Built, second: Built, third: Built|
            #![trigger first.kept_in(second), second.kept_in(third)]
            first.kept_in(second) && second.kept_in(third) ==> first.kept_in(third),
        forall|built: Built, tokens: Seq<Token>, pos: nat, kind: TokenKind|
            built.kept_in(#[trigger] built.noted(tokens, pos, kind)),
        forall|built: Built, found: Token| built.kept_in(#[trigger] built.no_expression(found)),
        forall|built: Built, advance: nat, shape: ExprShape|
            built.kept_in(#[trigger] made_expression(advance, built, shape).built),
        forall|built: Built, advance: nat, shape: StmtShape|
            built.kept_in(#[trigger] made_statement(advance, built, shape).built),
        forall|built: Built, advance: nat, shape: ItemShape|
            built.kept_in(#[trigger] made_item(advance, built, shape).built),
{
    reveal(Built::kept_in);
}

pub proof fn lemma_primary_sound(tokens: Seq<Token>, pos: nat, built: Built)
    requires
        ready(tokens, pos),
    ensures
        sound(tokens, pos, built, primary(tokens, pos, built)),
    decreases remaining(tokens, pos), 1nat,
{
    lemma_keeping();
    let token = tokens[pos as int];
    let read = step(tokens, pos);
    match token.kind {
        TokenKind::OpenParenthesis => {
            lemma_expression_sound(tokens, pos + read, built);
        },
        TokenKind::Identifier => {
            if peek_at(tokens, pos, 1).kind == TokenKind::OpenParenthesis {
                lemma_call_sound(tokens, pos, built);
            }
        },
        TokenKind::If => {
            lemma_if_expression_sound(tokens, pos, built);
        },
        TokenKind::OpenBrace => {
            lemma_block_sound(tokens, pos, built);
        },
        _ => {},
    }
}

pub proof fn lemma_call_sound(tokens: Seq<Token>, pos: nat, built: Built)
    requires
        ready(tokens, pos),
        tokens[pos as int].kind == TokenKind::Identifier,
    ensures
        sound(tokens, pos, built, call(tokens, pos, built)),
    decreases remaining(tokens, pos), 0nat,
{
    lemma_keeping();
    let open = pos + step(tokens, pos);
    let first = open + step(tokens, open);
    let noted = built.noted(tokens, open, TokenKind::OpenParenthesis);
    lemma_arguments_sound(tokens, first, noted, Seq::empty());
    let read = arguments(tokens, first, noted, Seq::empty());
    let close = first + read.advance;
    let closed = read.built.noted(tokens, close, TokenKind::CloseParenthesis);
}

pub proof fn lemma_arguments_sound(tokens: Seq<Token>, pos: nat, built: Built, list: Seq<ExprId>)
    requires
        ready(tokens, pos),
    ensures
        sound(tokens, pos, built, arguments(tokens, pos, built, list)),
    decreases remaining(tokens, pos), 6nat,
{
    lemma_keeping();
    let kind = tokens[pos as int].kind;
    if kind == TokenKind::CloseParenthesis || kind == TokenKind::Eof {
    } else {
        lemma_expression_sound(tokens, pos, built);
        let argument = expression(tokens, pos, built);
        let behind = pos + argument.advance;
        let comma = if tokens[behind as int].kind == TokenKind::Comma {
            step(tokens, behind)
        } else {
            0
        };
        if argument.advance != 0 {
            lemma_arguments_sound(
                tokens,
                behind + comma,
                argument.built,
                list.push(argument.value),
            );
        }
    }
}

pub proof fn lemma_if_expression_sound(tokens: Seq<Token>, pos: nat, built: Built)
    requires
        ready(tokens, pos),
        tokens[pos as int].kind == TokenKind::If,
    ensures
        sound(tokens, pos, built, if_expression(tokens, pos, built)),
    decreases remaining(tokens, pos), 0nat,
{
    lemma_keeping();
    let start = pos + step(tokens, pos);
    lemma_expression_sound(tokens, start, built);
    let condition = expression(tokens, start, built);
    let then_at = start + condition.advance;
    lemma_body_sound(tokens, then_at, condition.built);
    let then_branch = body(tokens, then_at, condition.built);
    let else_at = then_at + then_branch.advance;
    lemma_else_branch_sound(tokens, else_at, then_branch.built);
}

pub proof fn lemma_else_branch_sound(tokens: Seq<Token>, pos: nat, built: Built)
    requires
        ready(tokens, pos),
    ensures
        sound(tokens, pos, built, else_branch(tokens, pos, built)),
    decreases remaining(tokens, pos), 12nat,
{
    lemma_keeping();
    if tokens[pos as int].kind == TokenKind::Else {
        lemma_body_sound(tokens, pos + step(tokens, pos), built);
    }
}

pub proof fn lemma_block_sound(tokens: Seq<Token>, pos: nat, built: Built)
    requires
        ready(tokens, pos),
        tokens[pos as int].kind == TokenKind::OpenBrace,
    ensures
        sound(tokens, pos, built, block(tokens, pos, built)),
    decreases remaining(tokens, pos), 0nat,
{
    lemma_keeping();
    lemma_statements_sound(tokens, pos + step(tokens, pos), built, Seq::empty());
}

pub proof fn lemma_unary_sound(tokens: Seq<Token>, pos: nat, built: Built)
    requires
        ready(tokens, pos),
    ensures
        sound(tokens, pos, built, unary(tokens, pos, built)),
    decreases remaining(tokens, pos), 2nat,
{
    lemma_keeping();
    match unary_operator_of(tokens[pos as int].kind) {
        Some(_) => {
            lemma_unary_sound(tokens, pos + step(tokens, pos), built);
        },
        None => {
            lemma_primary_sound(tokens, pos, built);
        },
    }
}

pub proof fn lemma_binary_sound(tokens: Seq<Token>, pos: nat, built: Built, precedence: int)
    requires
        ready(tokens, pos),
    ensures
        sound(tokens, pos, built, binary(tokens, pos, built, precedence)),
    decreases remaining(tokens, pos), 4nat,
{
    lemma_keeping();
    lemma_unary_sound(tokens, pos, built);
    let left = unary(tokens, pos, built);
    lemma_operators_sound(tokens, pos + left.advance, left.built, left.value, precedence);
}

pub proof fn lemma_operators_sound(
    tokens: Seq<Token>,
    pos: nat,
    built: Built,
    left: ExprId,
    precedence: int,
)
    requires
        ready(tokens, pos),
    ensures
        sound(tokens, pos, built, operators(tokens, pos, built, left, precedence)),
    decreases remaining(tokens, pos), 3nat,
{
    lemma_keeping();
    let token = tokens[pos as int];
    match binary_operator_of(token.kind) {
        Some(kind) => {
            if kind.spec_precedence() >= precedence {
                let start = pos + step(tokens, pos);
                lemma_binary_sound(tokens, start, built, right_operand_precedence(kind));
                let right = binary(tokens, start, built, right_operand_precedence(kind));
                let applied = made_expression(
                    step(tokens, pos) + right.advance,
                    right.built,
                    ExprShape::Binary(
                        BinaryExpr {
                            left,
                            operator: BinOperator { kind, token },
                            right: right.value,
                        },
                    ),
                );
                lemma_operators_sound(
                    tokens,
                    pos + applied.advance,
                    applied.built,
                    applied.value,
                    precedence,
                );
            }
        },
        None => {},
    }
}

pub proof fn lemma_expression_sound(tokens: Seq<Token>, pos: nat, built: Built)
    requires
        ready(tokens, pos),
    ensures
        sound(tokens, pos, built, expression(tokens, pos, built)),
    decreases remaining(tokens, pos), 5nat,
{
    lemma_keeping();
    let token = tokens[pos as int];
    if token.kind == TokenKind::Identifier && peek_at(tokens, pos, 1).kind == TokenKind::Equals {
        let equals_at = pos + step(tokens, pos);
        let value_at = equals_at + step(tokens, equals_at);
        lemma_expression_sound(tokens, value_at, built);
    } else {
        lemma_binary_sound(tokens, pos, built, 0);
    }
}

pub proof fn lemma_type_annotation_sound(tokens: Seq<Token>, pos: nat, built: Built)
    requires
        ready(tokens, pos),
    ensures
        sound(tokens, pos, built, type_annotation(tokens, pos, built)),
{
    lemma_keeping();
}

pub proof fn lemma_let_statement_sound(tokens: Seq<Token>, pos: nat, built: Built)
    requires
        ready(tokens, pos),
    ensures
        sound(tokens, pos, built, let_statement(tokens, pos, built)),
    decreases remaining(tokens, pos), 7nat,
{
    lemma_keeping();
    let name_at = pos + step(tokens, pos);
    let annotation_at = name_at + step(tokens, name_at);
    let noted = built.noted(tokens, pos, TokenKind::Let).noted(
        tokens,
        name_at,
        TokenKind::Identifier,
    );
    lemma_type_annotation_sound(tokens, annotation_at, noted);
    let annotation = type_annotation(tokens, annotation_at, noted);
    let equals_at = annotation_at + annotation.advance;
    let value_at = equals_at + step(tokens, equals_at);
    lemma_expression_sound(
        tokens,
        value_at,
        annotation.built.noted(tokens, equals_at, TokenKind::Equals),
    );
}

pub proof fn lemma_while_statement_sound(tokens: Seq<Token>, pos: nat, built: Built)
    requires
        ready(tokens, pos),
        tokens[pos as int].kind == TokenKind::While,
    ensures
        sound(tokens, pos, built, while_statement(tokens, pos, built)),
    decreases remaining(tokens, pos), 7nat,
{
    lemma_keeping();
    let start = pos + step(tokens, pos);
    lemma_expression_sound(tokens, start, built);
    let condition = expression(tokens, start, built);
    lemma_body_sound(tokens, start + condition.advance, condition.built);
}

pub proof fn lemma_return_value_sound(tokens: Seq<Token>, pos: nat, built: Built)
    requires
        ready(tokens, pos),
    ensures
        sound(tokens, pos, built, return_value(tokens, pos, built)),
    decreases remaining(tokens, pos), 6nat,
{
    lemma_keeping();
    let kind = tokens[pos as int].kind;
    if kind == TokenKind::Semicolon || kind == TokenKind::CloseBrace || kind == TokenKind::Eof {
    } else {
        lemma_expression_sound(tokens, pos, built);
    }
}

pub proof fn lemma_return_statement_sound(tokens: Seq<Token>, pos: nat, built: Built)
    requires
        ready(tokens, pos),
    ensures
        sound(tokens, pos, built, return_statement(tokens, pos, built)),
    decreases remaining(tokens, pos), 7nat,
{
    lemma_keeping();
    lemma_return_value_sound(
        tokens,
        pos + step(tokens, pos),
        built.noted(tokens, pos, TokenKind::Return),
    );
}

pub proof fn lemma_expression_statement_sound(tokens: Seq<Token>, pos: nat, built: Built)
    requires
        ready(tokens, pos),
    ensures
        sound(tokens, pos, built, expression_statement(tokens, pos, built)),
    decreases remaining(tokens, pos), 7nat,
{
    lemma_keeping();
    lemma_expression_sound(tokens, pos, built);
}

pub proof fn lemma_bare_statement_sound(tokens: Seq<Token>, pos: nat, built: Built)
    requires
        ready(tokens, pos),
    ensures
        sound(tokens, pos, built, bare_statement(tokens, pos, built)),
    decreases remaining(tokens, pos), 8nat,
{
    lemma_keeping();
    match tokens[pos as int].kind {
        TokenKind::Let => {
            lemma_let_statement_sound(tokens, pos, built);
        },
        TokenKind::While => {
            lemma_while_statement_sound(tokens, pos, built);
        },
        TokenKind::Return => {
            lemma_return_statement_sound(tokens, pos, built);
        },
        TokenKind::Break => {},
        TokenKind::Continue => {},
        _ => {
            lemma_expression_statement_sound(tokens, pos, built);
        },
    }
}

pub proof fn lemma_statement_sound(tokens: Seq<Token>, pos: nat, built: Built)
    requires
        ready(tokens, pos),
    ensures
        sound(tokens, pos, built, statement(tokens, pos, built)),
    decreases remaining(tokens, pos), 9nat,
{
    lemma_keeping();
    lemma_bare_statement_sound(tokens, pos, built);
}

pub proof fn lemma_statements_sound(tokens: Seq<Token>, pos: nat, built: Built, list: Seq<StmtId>)
    requires
        ready(tokens, pos),
    ensures
        sound(tokens, pos, built, statements(tokens, pos, built, list)),
    decreases remaining(tokens, pos), 10nat,
{
    lemma_keeping();
    let kind = tokens[pos as int].kind;
    if kind == TokenKind::CloseBrace || kind == TokenKind::Eof {
    } else {
        lemma_statement_sound(tokens, pos, built);
        let first = statement(tokens, pos, built);
        if first.advance != 0 {
            lemma_statements_sound(
                tokens,
                pos + first.advance,
                first.built,
                list.push(first.value),
            );
        }
    }
}

pub proof fn lemma_body_sound(tokens: Seq<Token>, pos: nat, built: Built)
    requires
        ready(tokens, pos),
    ensures
        sound(tokens, pos, built, body(tokens, pos, built)),
    decreases remaining(tokens, pos), 11nat,
{
    lemma_keeping();
    let noted = built.noted(tokens, pos, TokenKind::OpenBrace);
    let first = pos + step(tokens, pos);
    lemma_statements_sound(tokens, first, noted, Seq::empty());
    let read = statements(tokens, first, noted, Seq::empty());
    let close = first + read.advance;
}

pub proof fn lemma_parameter_list_sound(
    tokens: Seq<Token>,
    pos: nat,
    built: Built,
    list: Seq<FuncDeclParameter>,
)
    requires
        ready(tokens, pos),
    ensures
        sound(tokens, pos, built, parameter_list(tokens, pos, built, list)),
    decreases remaining(tokens, pos),
{
    lemma_keeping();
    let kind = tokens[pos as int].kind;
    if kind == TokenKind::CloseParenthesis || kind == TokenKind::Eof {
    } else {
        let colon_at = pos + step(tokens, pos);
        let type_at = colon_at + step(tokens, colon_at);
        let behind = type_at + step(tokens, type_at);
        let comma = if tokens[behind as int].kind == TokenKind::Comma {
            step(tokens, behind)
        } else {
            0
        };
        lemma_parameter_list_sound(
            tokens,
            behind + comma,
            built.noted(tokens, pos, TokenKind::Identifier).noted(
                tokens,
                colon_at,
                TokenKind::Colon,
            ).noted(tokens, type_at, TokenKind::Identifier),
            list.push(
                FuncDeclParameter {
                    identifier: tokens[pos as int],
                    type_annotation: StaticTypeAnnotation {
                        colon: tokens[colon_at as int],
                        type_token: tokens[type_at as int],
                    },
                },
            ),
        );
    }
}

pub proof fn lemma_parameters_sound(tokens: Seq<Token>, pos: nat, built: Built)
    requires
        ready(tokens, pos),
    ensures
        sound(tokens, pos, built, parameters(tokens, pos, built)),
{
    lemma_keeping();
    let noted = built.noted(tokens, pos, TokenKind::OpenParenthesis);
    let first = pos + step(tokens, pos);
    lemma_parameter_list_sound(tokens, first, noted, Seq::empty());
    let read = parameter_list(tokens, first, noted, Seq::empty());
    let close = first + read.advance;
}

pub proof fn lemma_return_type_sound(tokens: Seq<Token>, pos: nat, built: Built)
    requires
        ready(tokens, pos),
    ensures
        sound(tokens, pos, built, return_type(tokens, pos, built)),
{
    lemma_keeping();
}

pub proof fn lemma_function_sound(tokens: Seq<Token>, pos: nat, built: Built)
    requires
        ready(tokens, pos),
    ensures
        sound(tokens, pos, built, function(tokens, pos, built)),
{
    lemma_keeping();
    let name_at = pos + step(tokens, pos);
    let parameters_at = name_at + step(tokens, name_at);
    let noted = built.noted(tokens, pos, TokenKind::Function).noted(
        tokens,
        name_at,
        TokenKind::Identifier,
    );
    lemma_parameters_sound(tokens, parameters_at, noted);
    let read = parameters(tokens, parameters_at, noted);
    let type_at = parameters_at + read.advance;
    lemma_return_type_sound(tokens, type_at, read.built);
    let declared = return_type(tokens, type_at, read.built);
    let body_at = type_at + declared.advance;
    lemma_body_sound(tokens, body_at, declared.built);
    let statements = body(tokens, body_at, declared.built);
}

pub proof fn lemma_item_sound(tokens: Seq<Token>, pos: nat, built: Built)
    requires
        ready(tokens, pos),
    ensures
        sound(tokens, pos, built, item(tokens, pos, built)),
{
    lemma_keeping();
    if tokens[pos as int].kind == TokenKind::Function {
        lemma_function_sound(tokens, pos, built);
    } else {
        lemma_statement_sound(tokens, pos, built);
    }
}

/// Parsing a program reads no further than the last token and keeps every
/// node that was in the arena, and every note, as it was.
pub proof fn lemma_program_sound(tokens: Seq<Token>, pos: nat, built: Built)
    requires
        ready(tokens, pos),
    ensures
        sound(tokens, pos, built, program(tokens, pos, built)),
    decreases remaining(tokens, pos),
{
    lemma_keeping();
    if tokens[pos as int].kind != TokenKind::Eof {
        lemma_item_sound(tokens, pos, built);
        let first = item(tokens, pos, built);
        if first.advance != 0 {
            lemma_program_sound(tokens, pos + first.advance, first.built);
        }
    }
}

} // verus!
