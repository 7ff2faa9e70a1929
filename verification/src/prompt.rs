//! The prompt engine: what each kind of prompt shows, and what it does with
//! one reply of the console.
//!
//! A prompt that asks until it succeeds is a loop of the caller: print the
//! prompt, read, hand the reply to the prompt's function, and either take the
//! value or print the diagnostic and go round again.
use vstd::prelude::*;
use crate::error::{channel_failure, parse_failure, VelvetIOError};
use crate::numbers::{decimal_text, number_text, unsigned_of, unsigned_value, within};
use crate::parser::Parse;
use crate::text::{
    chars_of, is_text, lowercase, pieces, split_chars, string_of, texts, to_lower, trim_chars,
    trim_each, trimmed, trimmed_each, trimmed_twice,
};
use crate::validators::total;

verus! {

/// What the console handed back for one read.
#[derive(Debug, Clone, PartialEq, Eq)]
pub enum Reply {
    /// A line of input, with or without its line terminator.
    Line(String),
    /// The read failed; the text is the channel's description of the failure.
    Failed(String),
}

/// What a retrying prompt does after one reply.
#[derive(Debug, PartialEq, Eq)]
pub enum Attempt<T> {
    /// The prompt is answered with this value.
    Done(T),
    /// The diagnostic is shown and the prompt starts again.
    Retry(String),
}

/// What a multiple-choice prompt does after one reply.
#[derive(Debug, PartialEq, Eq)]
pub enum Selection<'a, T> {
    /// The options that were selected, in the order in which they were named.
    Chosen(Vec<&'a T>),
    /// The diagnostic is shown and the line is read again.
    Reread(String),
    /// The diagnostic is shown and the whole selection starts again, menu
    /// included.
    Restart(String),
}

/// A message as it is shown to the user.
pub open spec fn diagnostic(message: Seq<char>) -> Seq<char> {
    "❌ "@ + message
}

/// The message shown where a validator refuses a value and the caller gave no
/// message of its own.
pub open spec fn default_refusal() -> Seq<char> {
    "Invalid input, please try again"@
}

/// Whether `result` is what the codec of `T` gave for the trimmed text of
/// `line`.
pub open spec fn parsed<T: Parse>(line: Seq<char>, result: Result<T, VelvetIOError>) -> bool {
    exists|t: &str| t@ == trimmed(line) && #[trigger] call_ensures(T::parse, (t,), result)
}

/// Whether `out` is what `ask` makes of the codec's `result`: the value, or
/// the failure's message as the diagnostic.
pub open spec fn answers<T>(result: Result<T, VelvetIOError>, out: Attempt<T>) -> bool {
    match result {
        Ok(value) => out == Attempt::Done(value),
        Err(e) => out is Retry && out->Retry_0@ == diagnostic(e@.message),
    }
}

/// What `ask` does with `reply`.
pub open spec fn ask_spec<T: Parse>(reply: Reply, out: Attempt<T>) -> bool {
    match reply {
        Reply::Line(line) => {
            let t = trimmed(line@);
            T::obeys_parse_spec() ==> if T::accepts(t) {
                out is Done && T::denotes(t, out->Done_0)
            } else {
                out is Retry && out->Retry_0@ == diagnostic(T::failure(t).message)
            }
        },
        Reply::Failed(detail) => out is Retry && out->Retry_0@ == diagnostic(
            channel_failure(detail@).message,
        ),
    }
}

/// A message as it is shown to the user.
pub fn show(message: &str) -> (r: String)
    ensures
        r@ == diagnostic(message@),
{
    let mut r = "❌ ".to_owned();
    r.append(message);
    r
}

/// The text that a prompt shows before it reads: the prompt and a colon.
pub fn prompt_line(prompt: &str) -> (r: String)
    ensures
        r@ == prompt@ + ": "@,
{
    let mut r = prompt.to_owned();
    r.append(": ");
    r
}

/// One round of the prompt that asks until it has a value. A line is trimmed
/// and parsed: a value ends the prompt, a refusal gives the parse failure as
/// the diagnostic. A failed read gives the channel failure as the diagnostic.
pub fn ask<T: Parse>(reply: &Reply) -> (out: Attempt<T>)
    ensures
        ask_spec(*reply, out),
        reply is Line ==> exists|result: Result<T, VelvetIOError>| #[trigger]
            parsed(reply->Line_0@, result) && answers(result, out),
{
    match reply {
        Reply::Line(line) => {
            let t = string_of(&trim_chars(&chars_of(line.as_str())));
            let result = T::parse(t.as_str());
            let ghost given = result;
            let out = match result {
                Ok(value) => Attempt::Done(value),
                Err(e) => Attempt::Retry(show(e.message.as_str())),
            };
            assert(parsed(line@, given) && answers(given, out));
            out
        },
        Reply::Failed(detail) => {
            let e = VelvetIOError::channel_error(detail.as_str());
            Attempt::Retry(show(e.message.as_str()))
        },
    }
}

/// The prompt that asks once. A line is trimmed and parsed, and the value or
/// the parse failure is returned; a failed read is returned as the channel
/// failure. Nothing is to be shown.
pub fn try_ask<T: Parse>(reply: &Reply) -> (r: Result<T, VelvetIOError>)
    ensures
        match *reply {
            Reply::Line(line) => {
                let t = trimmed(line@);
                T::obeys_parse_spec() ==> {
                    &&& r is Ok <==> T::accepts(t)
                    &&& r is Ok ==> T::denotes(t, r->Ok_0)
                    &&& r is Err ==> r->Err_0@ == T::failure(t)
                }
            },
            Reply::Failed(detail) => r is Err && r->Err_0@ == channel_failure(detail@),
        },
        reply is Line ==> parsed(reply->Line_0@, r),
{
    match reply {
        Reply::Line(line) => {
            let t = string_of(&trim_chars(&chars_of(line.as_str())));
            T::parse(t.as_str())
        },
        Reply::Failed(detail) => Err(VelvetIOError::channel_error(detail.as_str())),
    }
}

/// The message shown where the validator refuses a value.
pub open spec fn refusal(error_message: Option<&str>) -> Seq<char> {
    match error_message {
        Some(m) => m@,
        None => default_refusal(),
    }
}

/// Whether `out` is what `ask_with_validation` makes of the codec's `result`:
/// the value where the validator agreed, the message as the diagnostic where
/// it refused, and the failure's message as the diagnostic.
pub open spec fn answers_validated<T, F: Fn(&T) -> bool>(
    result: Result<T, VelvetIOError>,
    validator: F,
    message: Seq<char>,
    out: Attempt<T>,
) -> bool {
    match result {
        Ok(value) => {
            ||| out == Attempt::Done(value) && call_ensures(validator, (&value,), true)
            ||| out is Retry && out->Retry_0@ == diagnostic(message) && call_ensures(
                validator,
                (&value,),
                false,
            )
        },
        Err(e) => out is Retry && out->Retry_0@ == diagnostic(e@.message),
    }
}

/// One round of the prompt that asks until it has a value that the validator
/// lets through. It does what `ask` does, but a parsed value ends the prompt
/// only where the validator agrees; where it refuses, the diagnostic is
/// `error_message`, or the default message where none is given.
pub fn ask_with_validation<T: Parse, F>(
    reply: &Reply,
    validator: F,
    error_message: Option<&str>,
) -> (out: Attempt<T>) where F: Fn(&T) -> bool
    requires
        total(validator),
    ensures
        match *reply {
            Reply::Line(line) => {
                let t = trimmed(line@);
                T::obeys_parse_spec() ==> if T::accepts(t) {
                    &&& out is Done ==> T::denotes(t, out->Done_0) && call_ensures(
                        validator,
                        (&out->Done_0,),
                        true,
                    )
                    &&& out is Retry ==> out->Retry_0@ == diagnostic(refusal(error_message))
                        && exists|v: T| #[trigger]
                        T::denotes(t, v) && call_ensures(validator, (&v,), false)
                } else {
                    out is Retry && out->Retry_0@ == diagnostic(T::failure(t).message)
                }
            },
            Reply::Failed(detail) => out is Retry && out->Retry_0@ == diagnostic(
                channel_failure(detail@).message,
            ),
        },
        reply is Line ==> exists|result: Result<T, VelvetIOError>| #[trigger]
            parsed(reply->Line_0@, result) && answers_validated(
                result,
                validator,
                refusal(error_message),
                out,
            ),
{
    match reply {
        Reply::Line(line) => {
            let t = string_of(&trim_chars(&chars_of(line.as_str())));
            let result = T::parse(t.as_str());
            let ghost given = result;
            let out = match result {
                Ok(value) => {
                    if validator(&value) {
                        Attempt::Done(value)
                    } else {
                        match error_message {
                            Some(m) => Attempt::Retry(show(m)),
                            None => Attempt::Retry(show("Invalid input, please try again")),
                        }
                    }
                },
                Err(e) => Attempt::Retry(show(e.message.as_str())),
            };
            assert(parsed(line@, given) && answers_validated(
                given,
                validator,
                refusal(error_message),
                out,
            ));
            out
        },
        Reply::Failed(detail) => {
            let e = VelvetIOError::channel_error(detail.as_str());
            Attempt::Retry(show(e.message.as_str()))
        },
    }
}

/// The text that the prompt with a default shows before it reads: the
/// prompt, the default in square brackets, and a colon.
pub fn default_prompt(prompt: &str, default_text: &str) -> (r: String)
    ensures
        r@ == prompt@ + " ["@ + default_text@ + "]: "@,
{
    let mut r = prompt.to_owned();
    r.append(" [");
    r.append(default_text);
    r.append("]: ");
    r
}

/// The prompt that asks once and falls back on a default. An empty line
/// (once trimmed), a line that does not parse and a failed read all give the
/// default; any other line gives the parsed value. Nothing is to be shown.
pub fn ask_with_default<T: Parse>(reply: &Reply, default: T) -> (r: T)
    ensures
        match *reply {
            Reply::Line(line) => {
                let t = trimmed(line@);
                if t.len() == 0 {
                    r == default
                } else {
                    T::obeys_parse_spec() ==> if T::accepts(t) {
                        T::denotes(t, r)
                    } else {
                        r == default
                    }
                }
            },
            Reply::Failed(_) => r == default,
        },
        reply is Line && trimmed(reply->Line_0@).len() > 0 ==> exists|
            result: Result<T, VelvetIOError>,
        | #[trigger]
            parsed(reply->Line_0@, result) && r == match result {
                Ok(value) => value,
                Err(_) => default,
            },
{
    match reply {
        Reply::Line(line) => {
            let t = trim_chars(&chars_of(line.as_str()));
            if t.len() == 0 {
                default
            } else {
                let result = T::parse(string_of(&t).as_str());
                let ghost given = result;
                let r = match result {
                    Ok(value) => value,
                    Err(_) => default,
                };
                assert(parsed(line@, given));
                r
            }
        },
        Reply::Failed(_) => default,
    }
}

/// The prompt of a yes-or-no question: the question followed by " (y/n)".
pub fn confirm_prompt(prompt: &str) -> (r: String)
    ensures
        r@ == prompt@ + " (y/n)"@,
{
    let mut r = prompt.to_owned();
    r.append(" (y/n)");
    r
}

/// One round of a yes-or-no question: `ask` for a boolean.
pub fn confirm(reply: &Reply) -> (out: Attempt<bool>)
    ensures
        ask_spec::<bool>(*reply, out),
{
    ask::<bool>(reply)
}

/// The numbered lines of a menu for the first `upto` of `labels`, numbered
/// from one.
pub open spec fn menu_lines(labels: Seq<Seq<char>>, upto: nat) -> Seq<char>
    decreases upto,
{
    if upto == 0 {
        Seq::empty()
    } else {
        menu_lines(labels, (upto - 1) as nat) + "  "@ + decimal_text(upto) + ". "@ + labels[upto
            - 1] + "\n"@
    }
}

/// The texts that a vector of strings holds.
pub open spec fn labels_of(v: Seq<String>) -> Seq<Seq<char>> {
    Seq::new(v.len(), |i: int| v[i]@)
}

/// The menu of a choice: the prompt and a colon on a line of their own, then
/// one line for each option, numbered from one.
pub fn menu(prompt: &str, labels: &Vec<String>) -> (r: String)
    ensures
        r@ == prompt@ + ":\n"@ + menu_lines(labels_of(labels@), labels@.len()),
{
    let mut r = prompt.to_owned();
    r.append(":\n");
    let mut i: usize = 0;
    while i < labels.len()
        invariant
            i <= labels.len(),
            r@ == prompt@ + ":\n"@ + menu_lines(labels_of(labels@), i as nat),
        decreases labels.len() - i,
    {
        r.append("  ");
        r.append(number_text(i + 1).as_str());
        r.append(". ");
        r.append(labels[i].as_str());
        r.append("\n");
        i = i + 1;
    }
    r
}

/// The prompt under the menu of a single choice among `count` options.
pub fn choose_prompt(count: usize) -> (r: String)
    ensures
        r@ == "Choose (1-"@ + decimal_text(count as nat) + ")"@,
{
    let mut r = "Choose (1-".to_owned();
    r.append(number_text(count).as_str());
    r.append(")");
    r
}

/// The number that a line selects, where the line writes one.
pub open spec fn line_number(line: Seq<char>) -> Option<int> {
    within(unsigned_value(trimmed(line)), 0, usize::MAX as int)
}

/// The message shown where a selection is a number outside the menu.
pub open spec fn out_of_menu(count: nat) -> Seq<char> {
    "Please choose between 1 and "@ + decimal_text(count)
}

/// One round of a single choice. A line that writes a number from 1 to the
/// number of options ends the prompt with that option. Any other number gives
/// the bounds as the diagnostic, any other line the parse failure, a failed
/// read the channel failure; the choice then starts again.
pub fn choose_one<'a, T>(choices: &'a [T], reply: &Reply) -> (out: Attempt<&'a T>)
    requires
        choices@.len() > 0,
    ensures
        match *reply {
            Reply::Line(line) => match line_number(line@) {
                Some(n) => if 1 <= n <= choices@.len() {
                    out is Done && *out->Done_0 == choices@[n - 1]
                } else {
                    out is Retry && out->Retry_0@ == diagnostic(out_of_menu(choices@.len()))
                },
                None => out is Retry && out->Retry_0@ == diagnostic(
                    parse_failure(trimmed(line@), "positive integer"@).message,
                ),
            },
            Reply::Failed(detail) => out is Retry && out->Retry_0@ == diagnostic(
                channel_failure(detail@).message,
            ),
        },
{
    proof {
        if reply is Line {
            trimmed_twice(reply->Line_0@);
        }
    }
    match try_ask::<usize>(reply) {
        Ok(index) => {
            if index >= 1 && index <= choices.len() {
                Attempt::Done(&choices[index - 1])
            } else {
                let mut m = "Please choose between 1 and ".to_owned();
                m.append(number_text(choices.len()).as_str());
                Attempt::Retry(show(m.as_str()))
            }
        },
        Err(e) => Attempt::Retry(show(e.message.as_str())),
    }
}

/// The text under the menu of a multiple choice, which says how to select.
pub open spec fn selection_hint() -> Seq<char> {
    "Enter numbers separated by commas (e.g., 1,3,5) or 'all' or 'none':\n"@
}

/// The menu of a multiple choice: the menu of a choice, then a line that says
/// how to select. With no options there is no menu, and nothing is asked.
pub fn selection_menu(prompt: &str, labels: &Vec<String>) -> (r: Option<String>)
    ensures
        match r {
            Some(text) => labels@.len() > 0 && text@ == prompt@ + ":\n"@ + menu_lines(
                labels_of(labels@),
                labels@.len(),
            ) + selection_hint(),
            None => labels@.len() == 0,
        },
{
    if labels.len() == 0 {
        return None;
    }
    let mut r = menu(prompt, labels);
    r.append("Enter numbers separated by commas (e.g., 1,3,5) or 'all' or 'none':\n");
    Some(r)
}

/// The text that a multiple choice shows before it reads a line.
pub fn selection_prompt() -> (r: String)
    ensures
        r@ == "Selection: "@,
{
    "Selection: ".to_owned()
}

/// The text of a selection line that is looked at: trimmed, in lower case.
pub open spec fn selection_text(line: Seq<char>) -> Seq<char> {
    lowercase(trimmed(line))
}

/// The tokens of a selection line: its text cut at commas, each piece
/// trimmed.
pub open spec fn selection_tokens(line: Seq<char>) -> Seq<Seq<char>> {
    trimmed_each(pieces(selection_text(line), ','))
}

/// The number that a token writes, where it writes one.
pub open spec fn token_number(token: Seq<char>) -> Option<int> {
    within(unsigned_value(token), 0, usize::MAX as int)
}

/// Whether a token names one of `count` options, numbered from one.
pub open spec fn names_option(token: Seq<char>, count: nat) -> bool {
    match token_number(token) {
        Some(n) => 1 <= n <= count,
        None => false,
    }
}

/// The message shown for a token that names no option.
pub open spec fn bad_token(token: Seq<char>, count: nat) -> Seq<char> {
    match token_number(token) {
        Some(n) => decimal_text(n as nat) + " is not a valid option (1-"@ + decimal_text(count)
            + ")"@,
        None => "Please enter numbers separated by commas"@,
    }
}

/// Whether the token at `k` is the first that names no option.
pub open spec fn first_bad(tokens: Seq<Seq<char>>, count: nat, k: int) -> bool {
    &&& 0 <= k < tokens.len()
    &&& !names_option(tokens[k], count)
    &&& forall|j: int| 0 <= j < k ==> names_option(#[trigger] tokens[j], count)
}

/// Whether `picked` are the options that `tokens` name, in the order of the
/// tokens.
pub open spec fn picks<T>(picked: Seq<&T>, choices: Seq<T>, tokens: Seq<Seq<char>>) -> bool {
    &&& picked.len() == tokens.len()
    &&& forall|i: int|
        0 <= i < tokens.len() ==> names_option(#[trigger] tokens[i], choices.len()) && *picked[i]
            == choices[token_number(tokens[i])->Some_0 - 1]
}

/// Whether `picked` are all the options, in their listed order.
pub open spec fn picks_all<T>(picked: Seq<&T>, choices: Seq<T>) -> bool {
    &&& picked.len() == choices.len()
    &&& forall|i: int| 0 <= i < choices.len() ==> *#[trigger] picked[i] == choices[i]
}

/// What `multi_select` does with `reply`.
pub open spec fn multi_select_spec<T>(choices: Seq<T>, reply: Reply, out: Selection<T>) -> bool {
    if choices.len() == 0 {
        out is Chosen && out->Chosen_0@.len() == 0
    } else {
        match reply {
            Reply::Failed(detail) => out is Reread && out->Reread_0@ == diagnostic(
                channel_failure(detail@).message,
            ),
            Reply::Line(line) => {
                let s = selection_text(line@);
                let tokens = selection_tokens(line@);
                if s == "none"@ || s.len() == 0 {
                    out is Chosen && out->Chosen_0@.len() == 0
                } else if s == "all"@ {
                    out is Chosen && picks_all(out->Chosen_0@, choices)
                } else if forall|i: int|
                    0 <= i < tokens.len() ==> names_option(#[trigger] tokens[i], choices.len()) {
                    out is Chosen && picks(out->Chosen_0@, choices, tokens)
                } else {
                    out is Restart && exists|k: int| #[trigger]
                        first_bad(tokens, choices.len(), k) && out->Restart_0@ == diagnostic(
                            bad_token(tokens[k], choices.len()),
                        )
                }
            },
        }
    }
}

/// One round of a multiple choice. With no options nothing is selected,
/// whatever the reply. Else a failed read gives the channel failure as the
/// diagnostic and the line is read again. A line is trimmed and put in lower
/// case: "none" or nothing selects nothing, "all" selects every option in
/// listed order. Any other line is cut at commas and each trimmed token must
/// write a number from 1 to the number of options; the selection is then the
/// options so named, in the order of the tokens, repeats included. The first
/// token that names no option gives the diagnostic, and the whole selection
/// starts again.
#[verifier::loop_isolation(false)]
pub fn multi_select<'a, T>(choices: &'a [T], reply: &Reply) -> (out: Selection<'a, T>)
    ensures
        multi_select_spec(choices@, *reply, out),
{
    let count = choices.len();
    if count == 0 {
        return Selection::Chosen(Vec::new());
    }
    proof {
        if reply is Line {
            trimmed_twice(reply->Line_0@);
        }
    }
    match ask::<String>(reply) {
        Attempt::Retry(diagnostic) => Selection::Reread(diagnostic),
        Attempt::Done(input) => {
            let ghost line = reply->Line_0;
            let s = to_lower(&trim_chars(&chars_of(input.as_str())));
            if is_text(&s, "none") || s.len() == 0 {
                return Selection::Chosen(Vec::new());
            }
            let mut selected: Vec<&'a T> = Vec::new();
            if is_text(&s, "all") {
                let mut i: usize = 0;
                while i < count
                    invariant
                        i <= count == choices@.len(),
                        selected@.len() == i,
                        forall|k: int| 0 <= k < i ==> *#[trigger] selected@[k] == choices@[k],
                    decreases count - i,
                {
                    selected.push(&choices[i]);
                    i = i + 1;
                }
                return Selection::Chosen(selected);
            }
            let tokens = trim_each(&split_chars(&s, ','));
            let ghost want = selection_tokens(line@);
            let mut i: usize = 0;
            while i < tokens.len()
                invariant
                    i <= tokens.len(),
                    count == choices@.len(),
                    count > 0,
                    texts(tokens@) == want,
                    selected@.len() == i,
                    forall|k: int|
                        0 <= k < i ==> names_option(#[trigger] want[k], count as nat)
                            && *selected@[k] == choices@[token_number(want[k])->Some_0 - 1],
                decreases tokens.len() - i,
            {
                let text = string_of(&tokens[i]);
                assert(text@ == want[i as int]);
                let number = unsigned_of(text.as_str());
                let mut named: Option<usize> = None;
                match number {
                    Some(n) => {
                        if n <= usize::MAX as u128 {
                            named = Some(n as usize);
                        }
                    },
                    None => {},
                }
                match named {
                    Some(n) => {
                        if 1 <= n && n <= count {
                            selected.push(&choices[n - 1]);
                        } else {
                            let mut m = number_text(n);
                            m.append(" is not a valid option (1-");
                            m.append(number_text(count).as_str());
                            m.append(")");
                            assert(first_bad(want, count as nat, i as int));
                            return Selection::Restart(show(m.as_str()));
                        }
                    },
                    None => {
                        assert(first_bad(want, count as nat, i as int));
                        return Selection::Restart(show("Please enter numbers separated by commas"));
                    },
                }
                i = i + 1;
            }
            Selection::Chosen(selected)
        },
    }
}

} // verus!
