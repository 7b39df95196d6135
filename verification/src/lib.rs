//! A small language for procedurally generated monochrome pixel animations:
//! lexer, parser, syntax tree, values, and a tree-walking interpreter whose
//! generator expressions are evaluated once per pixel.
//!
//! Source text becomes tokens (`lexer`), tokens become a tree (`parser`,
//! after the rules in `grammar`), and an `Interpreter` runs the tree
//! (`evaluation`, after the relations in `semantics`). Numbers are IEEE 754
//! doubles held as bit patterns (`number`); what the interpreter decides
//! about them it reads off the pattern, and the arithmetic that rounds it
//! asks of a `NumberEngine` that the host supplies.

pub mod animation;
pub mod ast;
pub mod builtin;
pub mod environment;
pub mod error;
pub mod evaluation;
pub mod frame;
pub mod grammar;
pub mod interpreter;
pub mod lexer;
pub mod number;
pub mod operators;
pub mod parser;
pub mod semantics;
pub mod smiley;
pub mod text;
pub mod token;
pub mod value;

pub use animation::{normalize_frame_size, AnimationState, FrameRenderer};
pub use ast::{
    BinaryOperator, Event, Expression, Program, Statement, UnaryOperator, VariableType,
};
pub use builtin::{Builtin, BuiltinFunctions};
pub use environment::Environment;
pub use error::{ErrorKind, GizmoError};
pub use frame::Frame;
pub use interpreter::{Flow, Interpreter};
pub use lexer::Lexer;
pub use number::{ArithmeticOp, MathFunction, Number, NumberEngine};
pub use operators::{
    apply_binary_operator, apply_index_operator, apply_unary_operator, array_value,
    try_create_2d_frame, values_equal,
};
pub use parser::Parser;
pub use smiley::create_default_smiley;
pub use text::decimal_text;
pub use token::Token;
pub use value::{create_frame_from_value, value_to_bool, Value};
