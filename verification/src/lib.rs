//! Typed input collection for command-line programs, without the console.
//!
//! The crate holds the decisions of an interactive prompt: how a line of text
//! becomes a typed value, which values a validator lets through, what a prompt
//! does with one reply, and how a form turns its answers into a result. The
//! caller owns the console: it prints what it is handed and feeds back what it
//! read.
pub mod error;
pub mod form;
pub mod numbers;
pub mod parser;
pub mod prelude;
pub mod prompt;
pub mod text;
pub mod validators;

pub use error::{Failure, VelvetIOError};
pub use parser::Parse;
pub use text::{is_whitespace, lowercase, trimmed};
pub use validators::{and, in_range, is_positive, max_length, min_length, not_empty, or};
pub use prompt::{
    ask, ask_with_default, ask_with_validation, choose_one, confirm, multi_select, try_ask, Attempt,
    Reply, Selection,
};
pub use form::{form, FieldStep, FieldType, Filling, Form, FormField, FormResult};
