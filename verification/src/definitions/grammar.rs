//! What the parser makes of a sequence of tokens, as a mathematical function.
//!
//! There is one function for each rule of the grammar. It takes the tokens,
//! the place where the rule starts, and what has been built so far: the
//! arena and the notes of misplaced tokens. It gives the number of tokens
//! that the rule reads, what has been built when it is through, and the node
//! that stands for what it has read.

use vstd::prelude::*;
use crate::compilation_unit::{FunctionIdx, VariableIdx};
use crate::definitions::lexer::{Token, TokenKind};
use crate::definitions::shape::{
    ArenaModel, BlockShape, CallShape, ElseShape, ExprShape, FunctionShape, IfShape, ItemShape,
    StmtShape, WhileShape,
};
use crate::definitions::{
    AssignExpr, BinOpAssociativity, BinOpKind, BinOperator, BinaryExpr, BoolExpr, BreakStmt,
    ContinueStmt, ExprId, FuncDeclParameter, FunctionReturnTypeSyntax, ItemId, LetStmt, NumberExpr,
    ParenthesizedExpr, ReturnStmt, StaticTypeAnnotation, StmtId, UnOpKind, UnOperator, UnaryExpr,
    VarExpr,
};

verus! {

/// A token that stood where the grammar asks for something else.
#[derive(Debug)]
pub struct Diagnostic {
    /// The class that was asked for; `None` where an expression was.
    pub expected: Option<TokenKind>,
    pub found: Token,
}

/// Whether the tokens end with the end-of-file token.
pub open spec fn ends_with_eof(tokens: Seq<Token>) -> bool {
    tokens.len() > 0 && tokens.last().kind == TokenKind::Eof
}

/// Whether `pos` is a place among tokens that end with the end of the
/// file.
pub open spec fn ready(tokens: Seq<Token>, pos: nat) -> bool {
    ends_with_eof(tokens) && pos < tokens.len()
}

/// The number of tokens from `pos` on.
pub open spec fn remaining(tokens: Seq<Token>, pos: nat) -> nat {
    if pos < tokens.len() {
        (tokens.len() - pos) as nat
    } else {
        0
    }
}

/// By how much reading the token at `pos` moves on: by one, but not
/// beyond the last token.
pub open spec fn step(tokens: Seq<Token>, pos: nat) -> nat {
    if pos + 1 < tokens.len() {
        1
    } else {
        0
    }
}

/// The token `offset` places behind `pos`, or the last if there are not so
/// many.
pub open spec fn peek_at(tokens: Seq<Token>, pos: nat, offset: nat) -> Token {
    if pos + offset < tokens.len() {
        tokens[(pos + offset) as int]
    } else {
        tokens.last()
    }
}

/// The binary operator that a token class stands for.
pub open spec fn binary_operator_of(kind: TokenKind) -> Option<BinOpKind> {
    match kind {
        TokenKind::Plus => Some(BinOpKind::Plus),
        TokenKind::Minus => Some(BinOpKind::Minus),
        TokenKind::Asterisk => Some(BinOpKind::Multiply),
        TokenKind::Slash => Some(BinOpKind::Divide),
        TokenKind::Percent => Some(BinOpKind::Modulo),
        TokenKind::DoubleAsterisk => Some(BinOpKind::Power),
        TokenKind::Ampersand => Some(BinOpKind::BitwiseAnd),
        TokenKind::Pipe => Some(BinOpKind::BitwiseOr),
        TokenKind::Caret => Some(BinOpKind::BitwiseXor),
        TokenKind::DoubleEquals => Some(BinOpKind::Equals),
        TokenKind::BangEquals => Some(BinOpKind::NotEquals),
        TokenKind::LessThan => Some(BinOpKind::LessThan),
        TokenKind::LessThanEquals => Some(BinOpKind::LessThanOrEqual),
        TokenKind::GreaterThan => Some(BinOpKind::GreaterThan),
        TokenKind::GreaterThanEquals => Some(BinOpKind::GreaterThanOrEqual),
        _ => None,
    }
}

/// The unary operator that a token class stands for.
pub open spec fn unary_operator_of(kind: TokenKind) -> Option<UnOpKind> {
    match kind {
        TokenKind::Minus => Some(UnOpKind::Minus),
        TokenKind::Tilde => Some(UnOpKind::BitwiseNot),
        _ => None,
    }
}

/// The least precedence that an operator may have to stand in the right
/// operand of `kind`: one that binds tighter, or, where `kind` groups to the
/// right, as tightly.
pub open spec fn right_operand_precedence(kind: BinOpKind) -> int {
    match kind.spec_associativity() {
        BinOpAssociativity::Right => kind.spec_precedence() as int,
        BinOpAssociativity::Left => kind.spec_precedence() + 1,
    }
}

/// What parsing has built: the arena, and the notes of misplaced tokens.
pub struct Built {
    pub arena: ArenaModel,
    pub diagnostics: Seq<Diagnostic>,
}

/// The notes with one of the token at `pos` added, unless that token is of
/// the class `kind`.
pub open spec fn with_note(
    diagnostics: Seq<Diagnostic>,
    tokens: Seq<Token>,
    pos: nat,
    kind: TokenKind,
) -> Seq<Diagnostic> {
    if tokens[pos as int].kind == kind {
        diagnostics
    } else {
        diagnostics.push(Diagnostic { expected: Some(kind), found: tokens[pos as int] })
    }
}

impl Built {
    /// This with a note of the token at `pos`, unless it is of the class
    /// `kind`.
    pub open spec fn noted(self, tokens: Seq<Token>, pos: nat, kind: TokenKind) -> Built {
        Built {
            arena: self.arena,
            diagnostics: with_note(self.diagnostics, tokens, pos, kind),
        }
    }

    /// This with a note that `found` stands where an expression should
    /// start.
    pub open spec fn no_expression(self, found: Token) -> Built {
        Built {
            arena: self.arena,
            diagnostics: self.diagnostics.push(Diagnostic { expected: None, found }),
        }
    }
}

/// What a rule of the grammar gives: the number of tokens it has read, what
/// has been built, and what stands for what it has read.
pub struct Parsed<T> {
    pub advance: nat,
    pub built: Built,
    pub value: T,
}

/// A rule that ends with a new expression.
pub open spec fn made_expression(advance: nat, built: Built, shape: ExprShape) -> Parsed<ExprId> {
    Parsed {
        advance,
        built: Built {
            arena: built.arena.with_expression(shape),
            diagnostics: built.diagnostics,
        },
        value: built.arena.next_expression(),
    }
}

/// A rule that ends with a new statement.
pub open spec fn made_statement(advance: nat, built: Built, shape: StmtShape) -> Parsed<StmtId> {
    Parsed {
        advance,
        built: Built {
            arena: built.arena.with_statement(shape),
            diagnostics: built.diagnostics,
        },
        value: built.arena.next_statement(),
    }
}

/// A rule that ends with a new item.
pub open spec fn made_item(advance: nat, built: Built, shape: ItemShape) -> Parsed<ItemId> {
    Parsed {
        advance,
        built: Built { arena: built.arena.with_item(shape), diagnostics: built.diagnostics },
        value: built.arena.next_item(),
    }
}

/// A primary expression: a literal, an expression in parentheses, a call,
/// a variable, a conditional or a block. Any other token is read, noted and
/// made an error node.
pub open spec fn primary(tokens: Seq<Token>, pos: nat, built: Built) -> Parsed<ExprId>
    decreases remaining(tokens, pos), 1nat,
    when ready(tokens, pos)
{
    let token = tokens[pos as int];
    let read = step(tokens, pos);
    match token.kind {
        TokenKind::Number(number) => made_expression(
            read,
            built,
            ExprShape::Number(NumberExpr { number, token }),
        ),
        TokenKind::True => made_expression(
            read,
            built,
            ExprShape::Boolean(BoolExpr { value: true, token }),
        ),
        TokenKind::False => made_expression(
            read,
            built,
            ExprShape::Boolean(BoolExpr { value: false, token }),
        ),
        TokenKind::OpenParenthesis => {
            let inner = expression(tokens, pos + read, built);
            let close = pos + read + inner.advance;
            made_expression(
                read + inner.advance + step(tokens, close),
                inner.built.noted(tokens, close, TokenKind::CloseParenthesis),
                ExprShape::Parenthesized(
                    ParenthesizedExpr {
                        left_paren: token,
                        inner: inner.value,
                        right_paren: tokens[close as int],
                    },
                ),
            )
        },
        TokenKind::Identifier => if peek_at(tokens, pos, 1).kind == TokenKind::OpenParenthesis {
            call(tokens, pos, built)
        } else {
            made_expression(
                read,
                built,
                ExprShape::Variable(
                    VarExpr { identifier: token, variable_idx: VariableIdx { index: 0 } },
                ),
            )
        },
        TokenKind::If => if_expression(tokens, pos, built),
        TokenKind::OpenBrace => block(tokens, pos, built),
        _ => made_expression(read, built.no_expression(token), ExprShape::Error(token.span)),
    }
}

/// A call: the callee, and in parentheses the arguments.
pub open spec fn call(tokens: Seq<Token>, pos: nat, built: Built) -> Parsed<ExprId>
    decreases remaining(tokens, pos), 0nat,
    when ready(tokens, pos) && tokens[pos as int].kind == TokenKind::Identifier
{
    let open = pos + step(tokens, pos);
    let first = open + step(tokens, open);
    let read = arguments(
        tokens,
        first,
        built.noted(tokens, open, TokenKind::OpenParenthesis),
        Seq::empty(),
    );
    let close = first + read.advance;
    made_expression(
        step(tokens, pos) + step(tokens, open) + read.advance + step(tokens, close),
        read.built.noted(tokens, close, TokenKind::CloseParenthesis),
        ExprShape::Call(
            CallShape {
                callee: tokens[pos as int],
                left_paren: tokens[open as int],
                arguments: read.value,
                right_paren: tokens[close as int],
                function_idx: FunctionIdx { index: usize::MAX },
            },
        ),
    )
}

/// The arguments of a call from `pos` on, added to `list`: expressions, each
/// with a comma behind it or without, up to a closing parenthesis or the end
/// of the file.
pub open spec fn arguments(tokens: Seq<Token>, pos: nat, built: Built, list: Seq<ExprId>) -> Parsed<
    Seq<ExprId>,
>
    decreases remaining(tokens, pos), 6nat,
    when ready(tokens, pos)
{
    let kind = tokens[pos as int].kind;
    if kind == TokenKind::CloseParenthesis || kind == TokenKind::Eof {
        Parsed { advance: 0, built, value: list }
    } else {
        let argument = expression(tokens, pos, built);
        let behind = pos + argument.advance;
        let comma = if tokens[behind as int].kind == TokenKind::Comma {
            step(tokens, behind)
        } else {
            0
        };
        if argument.advance == 0 {
            Parsed { advance: 0, built: argument.built, value: list.push(argument.value) }
        } else {
            let rest = arguments(tokens, behind + comma, argument.built, list.push(argument.value));
            Parsed { advance: argument.advance + comma + rest.advance, ..rest }
        }
    }
}

/// A conditional: a condition, a body, and maybe `else` and another body.
pub open spec fn if_expression(tokens: Seq<Token>, pos: nat, built: Built) -> Parsed<ExprId>
    decreases remaining(tokens, pos), 0nat,
    when ready(tokens, pos) && tokens[pos as int].kind == TokenKind::If
{
    let start = pos + step(tokens, pos);
    let condition = expression(tokens, start, built);
    let then_at = start + condition.advance;
    let then_branch = body(tokens, then_at, condition.built);
    let else_at = then_at + then_branch.advance;
    let else_branch = else_branch(tokens, else_at, then_branch.built);
    made_expression(
        step(tokens, pos) + condition.advance + then_branch.advance + else_branch.advance,
        else_branch.built,
        ExprShape::If(
            IfShape {
                if_keyword: tokens[pos as int],
                condition: condition.value,
                then_branch: then_branch.value,
                else_branch: else_branch.value,
            },
        ),
    )
}

/// The second branch of a conditional, if there is one: `else` and a body.
pub open spec fn else_branch(tokens: Seq<Token>, pos: nat, built: Built) -> Parsed<
    Option<ElseShape>,
>
    decreases remaining(tokens, pos), 12nat,
    when ready(tokens, pos)
{
    if tokens[pos as int].kind == TokenKind::Else {
        let read = body(tokens, pos + step(tokens, pos), built);
        Parsed {
            advance: step(tokens, pos) + read.advance,
            built: read.built,
            value: Some(ElseShape { else_keyword: tokens[pos as int], body: read.value }),
        }
    } else {
        Parsed { advance: 0, built, value: None }
    }
}

/// A block: statements in braces.
pub open spec fn block(tokens: Seq<Token>, pos: nat, built: Built) -> Parsed<ExprId>
    decreases remaining(tokens, pos), 0nat,
    when ready(tokens, pos) && tokens[pos as int].kind == TokenKind::OpenBrace
{
    let first = pos + step(tokens, pos);
    let read = statements(tokens, first, built, Seq::empty());
    let close = first + read.advance;
    made_expression(
        step(tokens, pos) + read.advance + step(tokens, close),
        read.built.noted(tokens, close, TokenKind::CloseBrace),
        ExprShape::Block(
            BlockShape {
                left_brace: tokens[pos as int],
                stmts: read.value,
                right_brace: tokens[close as int],
            },
        ),
    )
}

/// A unary expression: unary operators in front of a primary expression.
pub open spec fn unary(tokens: Seq<Token>, pos: nat, built: Built) -> Parsed<ExprId>
    decreases remaining(tokens, pos), 2nat,
    when ready(tokens, pos)
{
    let token = tokens[pos as int];
    match unary_operator_of(token.kind) {
        Some(kind) => {
            let operand = unary(tokens, pos + step(tokens, pos), built);
            made_expression(
                step(tokens, pos) + operand.advance,
                operand.built,
                ExprShape::Unary(
                    UnaryExpr { operator: UnOperator { kind, token }, operand: operand.value },
                ),
            )
        },
        None => primary(tokens, pos, built),
    }
}

/// An operand, and behind it the operators that bind as tightly as
/// `precedence` at least, each with its right operand.
pub open spec fn binary(tokens: Seq<Token>, pos: nat, built: Built, precedence: int) -> Parsed<
    ExprId,
>
    decreases remaining(tokens, pos), 4nat,
    when ready(tokens, pos)
{
    let left = unary(tokens, pos, built);
    let rest = operators(tokens, pos + left.advance, left.built, left.value, precedence);
    Parsed { advance: left.advance + rest.advance, ..rest }
}

/// With `left` read: the operators from `pos` on that bind as tightly as
/// `precedence` at least, each with its right operand. Each application
/// becomes the left operand of the next.
pub open spec fn operators(
    tokens: Seq<Token>,
    pos: nat,
    built: Built,
    left: ExprId,
    precedence: int,
) -> Parsed<ExprId>
    decreases remaining(tokens, pos), 3nat,
    when ready(tokens, pos)
{
    let token = tokens[pos as int];
    match binary_operator_of(token.kind) {
        Some(kind) => if kind.spec_precedence() < precedence {
            Parsed { advance: 0, built, value: left }
        } else {
            let right = binary(
                tokens,
                pos + step(tokens, pos),
                built,
                right_operand_precedence(kind),
            );
            let applied = made_expression(
                step(tokens, pos) + right.advance,
                right.built,
                ExprShape::Binary(
                    BinaryExpr { left, operator: BinOperator { kind, token }, right: right.value },
                ),
            );
            let rest = operators(
                tokens,
                pos + applied.advance,
                applied.built,
                applied.value,
                precedence,
            );
            Parsed { advance: applied.advance + rest.advance, ..rest }
        },
        None => Parsed { advance: 0, built, value: left },
    }
}

/// An expression: an assignment, where a name stands in front of `=`, and
/// else operands and operators.
pub open spec fn expression(tokens: Seq<Token>, pos: nat, built: Built) -> Parsed<ExprId>
    decreases remaining(tokens, pos), 5nat,
    when ready(tokens, pos)
{
    let token = tokens[pos as int];
    if token.kind == TokenKind::Identifier && peek_at(tokens, pos, 1).kind == TokenKind::Equals {
        let equals_at = pos + step(tokens, pos);
        let value_at = equals_at + step(tokens, equals_at);
        let value = expression(tokens, value_at, built);
        made_expression(
            step(tokens, pos) + step(tokens, equals_at) + value.advance,
            value.built,
            ExprShape::Assignment(
                AssignExpr {
                    identifier: token,
                    equals: tokens[equals_at as int],
                    expression: value.value,
                    variable_idx: VariableIdx { index: 0 },
                },
            ),
        )
    } else {
        binary(tokens, pos, built, 0)
    }
}

/// A type annotation, if there is one: a colon and a name.
pub open spec fn type_annotation(tokens: Seq<Token>, pos: nat, built: Built) -> Parsed<
    Option<StaticTypeAnnotation>,
> {
    if tokens[pos as int].kind == TokenKind::Colon {
        let name_at = pos + step(tokens, pos);
        Parsed {
            advance: step(tokens, pos) + step(tokens, name_at),
            built: built.noted(tokens, name_at, TokenKind::Identifier),
            value: Some(
                StaticTypeAnnotation {
                    colon: tokens[pos as int],
                    type_token: tokens[name_at as int],
                },
            ),
        }
    } else {
        Parsed { advance: 0, built, value: None }
    }
}

/// A `let`: the keyword, a name, maybe a type annotation, `=` and an
/// expression.
pub open spec fn let_statement(tokens: Seq<Token>, pos: nat, built: Built) -> Parsed<StmtId>
    decreases remaining(tokens, pos), 7nat,
    when ready(tokens, pos)
{
    let name_at = pos + step(tokens, pos);
    let annotation_at = name_at + step(tokens, name_at);
    let annotation = type_annotation(
        tokens,
        annotation_at,
        built.noted(tokens, pos, TokenKind::Let).noted(tokens, name_at, TokenKind::Identifier),
    );
    let equals_at = annotation_at + annotation.advance;
    let value_at = equals_at + step(tokens, equals_at);
    let value = expression(
        tokens,
        value_at,
        annotation.built.noted(tokens, equals_at, TokenKind::Equals),
    );
    made_statement(
        step(tokens, pos) + step(tokens, name_at) + annotation.advance + step(tokens, equals_at)
            + value.advance,
        value.built,
        StmtShape::Let(
            LetStmt {
                identifier: tokens[name_at as int],
                initializer: value.value,
                type_annotation: annotation.value,
                variable_idx: VariableIdx { index: 0 },
            },
        ),
    )
}

/// A `while`: the keyword, a condition and a body.
pub open spec fn while_statement(tokens: Seq<Token>, pos: nat, built: Built) -> Parsed<StmtId>
    decreases remaining(tokens, pos), 7nat,
    when ready(tokens, pos) && tokens[pos as int].kind == TokenKind::While
{
    let start = pos + step(tokens, pos);
    let condition = expression(tokens, start, built);
    let body_at = start + condition.advance;
    let read = body(tokens, body_at, condition.built);
    made_statement(
        step(tokens, pos) + condition.advance + read.advance,
        read.built,
        StmtShape::While(
            WhileShape {
                while_keyword: tokens[pos as int],
                condition: condition.value,
                body: read.value,
            },
        ),
    )
}

/// What a `return` returns: an expression, unless a semicolon, a closing
/// brace or the end of the file stands at `pos`.
pub open spec fn return_value(tokens: Seq<Token>, pos: nat, built: Built) -> Parsed<
    Option<ExprId>,
>
    decreases remaining(tokens, pos), 6nat,
    when ready(tokens, pos)
{
    let kind = tokens[pos as int].kind;
    if kind == TokenKind::Semicolon || kind == TokenKind::CloseBrace || kind == TokenKind::Eof {
        Parsed { advance: 0, built, value: None }
    } else {
        let value = expression(tokens, pos, built);
        Parsed { advance: value.advance, built: value.built, value: Some(value.value) }
    }
}

/// A `return`: the keyword, and maybe an expression.
pub open spec fn return_statement(tokens: Seq<Token>, pos: nat, built: Built) -> Parsed<StmtId>
    decreases remaining(tokens, pos), 7nat,
    when ready(tokens, pos)
{
    let value = return_value(
        tokens,
        pos + step(tokens, pos),
        built.noted(tokens, pos, TokenKind::Return),
    );
    made_statement(
        step(tokens, pos) + value.advance,
        value.built,
        StmtShape::Return(
            ReturnStmt { return_keyword: tokens[pos as int], return_value: value.value },
        ),
    )
}

/// An expression that stands as a statement.
pub open spec fn expression_statement(tokens: Seq<Token>, pos: nat, built: Built) -> Parsed<StmtId>
    decreases remaining(tokens, pos), 7nat,
    when ready(tokens, pos)
{
    let read = expression(tokens, pos, built);
    made_statement(read.advance, read.built, StmtShape::Expr(read.value))
}

/// A statement of the kind that its first token announces.
pub open spec fn bare_statement(tokens: Seq<Token>, pos: nat, built: Built) -> Parsed<StmtId>
    decreases remaining(tokens, pos), 8nat,
    when ready(tokens, pos)
{
    let token = tokens[pos as int];
    match token.kind {
        TokenKind::Let => let_statement(tokens, pos, built),
        TokenKind::While => while_statement(tokens, pos, built),
        TokenKind::Return => return_statement(tokens, pos, built),
        TokenKind::Break => made_statement(
            step(tokens, pos),
            built,
            StmtShape::Break(BreakStmt { break_keyword: token }),
        ),
        TokenKind::Continue => made_statement(
            step(tokens, pos),
            built,
            StmtShape::Continue(ContinueStmt { continue_keyword: token }),
        ),
        _ => expression_statement(tokens, pos, built),
    }
}

/// A statement, and the semicolon behind it if there is one.
pub open spec fn statement(tokens: Seq<Token>, pos: nat, built: Built) -> Parsed<StmtId>
    decreases remaining(tokens, pos), 9nat,
    when ready(tokens, pos)
{
    let read = bare_statement(tokens, pos, built);
    let behind = pos + read.advance;
    if tokens[behind as int].kind == TokenKind::Semicolon {
        Parsed { advance: read.advance + step(tokens, behind), ..read }
    } else {
        read
    }
}

/// The statements from `pos` on, added to `list`, up to a closing brace or
/// the end of the file.
pub open spec fn statements(
    tokens: Seq<Token>,
    pos: nat,
    built: Built,
    list: Seq<StmtId>,
) -> Parsed<Seq<StmtId>>
    decreases remaining(tokens, pos), 10nat,
    when ready(tokens, pos)
{
    let kind = tokens[pos as int].kind;
    if kind == TokenKind::CloseBrace || kind == TokenKind::Eof {
        Parsed { advance: 0, built, value: list }
    } else {
        let first = statement(tokens, pos, built);
        if first.advance == 0 {
            Parsed { advance: 0, built: first.built, value: list.push(first.value) }
        } else {
            let rest = statements(tokens, pos + first.advance, first.built, list.push(first.value));
            Parsed { advance: first.advance + rest.advance, ..rest }
        }
    }
}

/// A body: statements in braces.
pub open spec fn body(tokens: Seq<Token>, pos: nat, built: Built) -> Parsed<Seq<StmtId>>
    decreases remaining(tokens, pos), 11nat,
    when ready(tokens, pos)
{
    let first = pos + step(tokens, pos);
    let read = statements(
        tokens,
        first,
        built.noted(tokens, pos, TokenKind::OpenBrace),
        Seq::empty(),
    );
    let close = first + read.advance;
    Parsed {
        advance: step(tokens, pos) + read.advance + step(tokens, close),
        built: read.built.noted(tokens, close, TokenKind::CloseBrace),
        value: read.value,
    }
}

/// The parameters of a function from `pos` on, added to `list`: each a
/// name, a colon and a name, with a comma behind it or without, up to a
/// closing parenthesis or the end of the file.
pub open spec fn parameter_list(
    tokens: Seq<Token>,
    pos: nat,
    built: Built,
    list: Seq<FuncDeclParameter>,
) -> Parsed<Seq<FuncDeclParameter>>
    decreases remaining(tokens, pos),
    when ready(tokens, pos)
{
    let kind = tokens[pos as int].kind;
    if kind == TokenKind::CloseParenthesis || kind == TokenKind::Eof {
        Parsed { advance: 0, built, value: list }
    } else {
        let colon_at = pos + step(tokens, pos);
        let type_at = colon_at + step(tokens, colon_at);
        let behind = type_at + step(tokens, type_at);
        let comma = if tokens[behind as int].kind == TokenKind::Comma {
            step(tokens, behind)
        } else {
            0
        };
        let rest = parameter_list(
            tokens,
            behind + comma,
            built.noted(tokens, pos, TokenKind::Identifier).noted(
                tokens,
                colon_at,
                TokenKind::Colon,
            ).noted(tokens, type_at, TokenKind::Identifier),
            list.push(
                FuncDeclParameter {
                    identifier: tokens[pos as int],
                    type_annotation: StaticTypeAnnotation {
                        colon: tokens[colon_at as int],
                        type_token: tokens[type_at as int],
                    },
                },
            ),
        );
        Parsed {
            advance: step(tokens, pos) + step(tokens, colon_at) + step(tokens, type_at) + comma
                + rest.advance,
            ..rest
        }
    }
}

/// The parameters of a function, in parentheses.
pub open spec fn parameters(tokens: Seq<Token>, pos: nat, built: Built) -> Parsed<
    Seq<FuncDeclParameter>,
> {
    let first = pos + step(tokens, pos);
    let read = parameter_list(
        tokens,
        first,
        built.noted(tokens, pos, TokenKind::OpenParenthesis),
        Seq::empty(),
    );
    let close = first + read.advance;
    Parsed {
        advance: step(tokens, pos) + read.advance + step(tokens, close),
        built: read.built.noted(tokens, close, TokenKind::CloseParenthesis),
        value: read.value,
    }
}

/// The return type of a function, if there is one: an arrow and a name.
pub open spec fn return_type(tokens: Seq<Token>, pos: nat, built: Built) -> Parsed<
    Option<FunctionReturnTypeSyntax>,
> {
    if tokens[pos as int].kind == TokenKind::Arrow {
        let name_at = pos + step(tokens, pos);
        Parsed {
            advance: step(tokens, pos) + step(tokens, name_at),
            built: built.noted(tokens, name_at, TokenKind::Identifier),
            value: Some(
                FunctionReturnTypeSyntax {
                    arrow: tokens[pos as int],
                    type_token: tokens[name_at as int],
                },
            ),
        }
    } else {
        Parsed { advance: 0, built, value: None }
    }
}

/// A function declaration: the keyword, a name, the parameters, maybe a
/// return type, and a body. Its place in the table of functions is not yet
/// resolved.
pub open spec fn function(tokens: Seq<Token>, pos: nat, built: Built) -> Parsed<ItemId> {
    let name_at = pos + step(tokens, pos);
    let parameters_at = name_at + step(tokens, name_at);
    let read = parameters(
        tokens,
        parameters_at,
        built.noted(tokens, pos, TokenKind::Function).noted(tokens, name_at, TokenKind::Identifier),
    );
    let type_at = parameters_at + read.advance;
    let declared = return_type(tokens, type_at, read.built);
    let body_at = type_at + declared.advance;
    let statements = body(tokens, body_at, declared.built);
    made_item(
        step(tokens, pos) + step(tokens, name_at) + read.advance + declared.advance
            + statements.advance,
        statements.built,
        ItemShape::Function(
            FunctionShape {
                func_keyword: tokens[pos as int],
                identifier: tokens[name_at as int],
                parameters: read.value,
                body: statements.value,
                return_type: declared.value,
                idx: FunctionIdx { index: usize::MAX },
            },
        ),
    )
}

/// An item: a function declaration where the keyword announces one, and
/// else a statement.
pub open spec fn item(tokens: Seq<Token>, pos: nat, built: Built) -> Parsed<ItemId> {
    if tokens[pos as int].kind == TokenKind::Function {
        function(tokens, pos, built)
    } else {
        let read = statement(tokens, pos, built);
        made_item(read.advance, read.built, ItemShape::Stmt(read.value))
    }
}

/// A program: items from `pos` up to the end of the file.
pub open spec fn program(tokens: Seq<Token>, pos: nat, built: Built) -> Parsed<()>
    decreases remaining(tokens, pos),
    when ready(tokens, pos)
{
    if tokens[pos as int].kind == TokenKind::Eof {
        Parsed { advance: 0, built, value: () }
    } else {
        let first = item(tokens, pos, built);
        if first.advance == 0 {
            Parsed { advance: 0, built: first.built, value: () }
        } else {
            let rest = program(tokens, pos + first.advance, first.built);
            Parsed { advance: first.advance + rest.advance, ..rest }
        }
    }
}

} // verus!
