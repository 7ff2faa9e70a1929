//! The names that a program using the crate wants in scope.
pub use crate::error::VelvetIOError;
pub use crate::form::{form, FieldStep, Filling, Form, FormField, FormResult};
pub use crate::parser::Parse;
pub use crate::prompt::{
    ask, ask_with_default, ask_with_validation, choose_one, confirm, multi_select, try_ask, Attempt,
    Reply, Selection,
};
pub use crate::validators::{and, in_range, is_positive, max_length, min_length, not_empty, or};
