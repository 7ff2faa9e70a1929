//! The failure record that parsing, validation and the input channel share.
use vstd::prelude::*;

verus! {

/// What a `VelvetIOError` holds, as plain text.
pub struct Failure {
    pub message: Seq<char>,
    pub input: Seq<char>,
    pub expected: Seq<char>,
}

/// The failure of parsing `input` as `expected`.
pub open spec fn parse_failure(input: Seq<char>, expected: Seq<char>) -> Failure {
    Failure { message: "Cannot parse '"@ + input + "' as "@ + expected, input, expected }
}

/// The failure of `input` to pass a validator that reports `message`.
pub open spec fn validation_failure(input: Seq<char>, message: Seq<char>) -> Failure {
    Failure { message, input, expected: "valid input"@ }
}

/// The failure of the input channel, which described itself as `detail`.
pub open spec fn channel_failure(detail: Seq<char>) -> Failure {
    Failure { message: "Input error: "@ + detail, input: Seq::empty(), expected: "valid input"@ }
}

/// A failed attempt to obtain a value: what went wrong, the text that was
/// given, and what was expected in its place.
#[derive(Debug, Clone)]
pub struct VelvetIOError {
    pub message: String,
    pub input: String,
    pub expected: String,
}

impl View for VelvetIOError {
    type V = Failure;

    open spec fn view(&self) -> Failure {
        Failure { message: self.message@, input: self.input@, expected: self.expected@ }
    }
}

impl VelvetIOError {
    /// A failure made of its three parts.
    pub fn new(message: &str, input: &str, expected: &str) -> (e: Self)
        ensures
            e@ == (Failure { message: message@, input: input@, expected: expected@ }),
    {
        VelvetIOError {
            message: message.to_owned(),
            input: input.to_owned(),
            expected: expected.to_owned(),
        }
    }

    /// The failure of parsing `input` as `expected_type`; its message reads
    /// "Cannot parse '<input>' as <expected_type>".
    pub fn parse_error(input: &str, expected_type: &str) -> (e: Self)
        ensures
            e@ == parse_failure(input@, expected_type@),
    {
        let mut message = "Cannot parse '".to_owned();
        message.append(input);
        message.append("' as ");
        message.append(expected_type);
        VelvetIOError { message, input: input.to_owned(), expected: expected_type.to_owned() }
    }

    /// The failure of `input` to pass a validator, with the validator's own
    /// message.
    pub fn validation_error(input: &str, custom_message: &str) -> (e: Self)
        ensures
            e@ == validation_failure(input@, custom_message@),
    {
        VelvetIOError {
            message: custom_message.to_owned(),
            input: input.to_owned(),
            expected: "valid input".to_owned(),
        }
    }

    /// The failure of the input channel; `detail` is the channel's own
    /// description of what happened.
    pub fn channel_error(detail: &str) -> (e: Self)
        ensures
            e@ == channel_failure(detail@),
    {
        let mut message = "Input error: ".to_owned();
        message.append(detail);
        VelvetIOError { message, input: String::new(), expected: "valid input".to_owned() }
    }

    /// The text shown to the user: the message.
    pub fn to_text(&self) -> (s: String)
        ensures
            s@ == self.message@,
    {
        self.message.clone()
    }
}

} // verus!
