//! The core of a small interpreted language.
//!
//! - `text`: source text, and spans of it.
//! - `definitions::lexer`: tokens, and the lexer that cuts text into them.
//! - `definitions`: the syntax tree, an arena of nodes that refer to one
//!   another by index; `definitions::constructors` makes the nodes,
//!   `definitions::ranks` says when an arena is well-formed, and
//!   `definitions::shape` is the tree as a mathematical value.
//! - `definitions::parser`: the parser, which fills an arena from tokens as
//!   `definitions::grammar` says.
//! - `definitions::visitor`: the traversal protocol, one walk for all
//!   visitors.
//! - `definitions::eval`: the evaluator, which executes a program against a
//!   stack of frames as `definitions::semantics` says; `definitions::value`
//!   has the values and the operators.
//! - `definitions::laws`, `definitions::purity`, `definitions::grammar_laws`:
//!   what holds of every evaluation and of every parse.
//! - `compilation_unit`: the slots of variables and the table of functions,
//!   which name resolution provides.

pub mod compilation_unit;
pub mod definitions;
pub mod text;
pub mod typings;
