//! Text-to-value conversion: the `Parse` capability and the codecs for text,
//! booleans, characters, optional values, lists, pairs and triples.
use vstd::prelude::*;
use crate::error::{parse_failure, Failure, VelvetIOError};
use crate::text::{
    chars_of, drop_empty, has_char, is_text, is_whitespace, lowercase, non_empty, pieces,
    split_chars, split_words, string_of, texts, to_lower, trim_chars, trim_each, trimmed,
    trimmed_each, trimmed_keeps, words,
};

verus! {

/// A type that can be read from text.
///
/// `accepts` says which texts are values of the type, `denotes` which value a
/// text stands for, `failure` what is reported for a text that is refused, and
/// `name` how the type is described to the user. A type states these rules
/// and sets `obeys_parse_spec`; `parse` and `describe` are then held to them.
/// A type that states none is outside every contract that speaks of them.
pub trait Parse: Sized {
    /// Whether the type states its rules.
    open spec fn obeys_parse_spec() -> bool {
        false
    }

    /// Whether `input` is a value of the type.
    open spec fn accepts(input: Seq<char>) -> bool {
        false
    }

    /// Whether `input` stands for `value`.
    open spec fn denotes(input: Seq<char>, value: Self) -> bool {
        false
    }

    /// What is reported where `input` is refused.
    open spec fn failure(input: Seq<char>) -> Failure {
        parse_failure(input, Self::name())
    }

    /// How the type is described to the user.
    open spec fn name() -> Seq<char> {
        Seq::empty()
    }

    /// The value that `input` stands for, or the failure to report.
    fn parse(input: &str) -> (r: Result<Self, VelvetIOError>)
        ensures
            Self::obeys_parse_spec() ==> (r is Ok <==> Self::accepts(input@)),
            Self::obeys_parse_spec() && r is Ok ==> Self::denotes(input@, r->Ok_0),
            Self::obeys_parse_spec() && r is Err ==> r->Err_0@ == Self::failure(input@),
    ;

    /// How the type is described to the user.
    fn describe() -> (r: &'static str)
        ensures
            Self::obeys_parse_spec() ==> r@ == Self::name(),
    ;
}

impl Parse for String {
    open spec fn obeys_parse_spec() -> bool {
        true
    }

    open spec fn accepts(input: Seq<char>) -> bool {
        true
    }

    open spec fn denotes(input: Seq<char>, value: Self) -> bool {
        value@ == input
    }

    open spec fn failure(input: Seq<char>) -> Failure {
        parse_failure(input, "text"@)
    }

    open spec fn name() -> Seq<char> {
        "text"@
    }

    fn parse(input: &str) -> (r: Result<Self, VelvetIOError>) {
        Ok(input.to_owned())
    }

    fn describe() -> (r: &'static str) {
        "text"
    }
}

/// Whether the lower-case text `l` is one of the words for "yes".
pub open spec fn is_yes(l: Seq<char>) -> bool {
    l == "true"@ || l == "t"@ || l == "yes"@ || l == "y"@ || l == "1"@ || l == "on"@
}

/// Whether the lower-case text `l` is one of the words for "no".
pub open spec fn is_no(l: Seq<char>) -> bool {
    l == "false"@ || l == "f"@ || l == "no"@ || l == "n"@ || l == "0"@ || l == "off"@
}

impl Parse for bool {
    open spec fn obeys_parse_spec() -> bool {
        true
    }

    open spec fn accepts(input: Seq<char>) -> bool {
        is_yes(lowercase(trimmed(input))) || is_no(lowercase(trimmed(input)))
    }

    open spec fn denotes(input: Seq<char>, value: Self) -> bool {
        value == is_yes(lowercase(trimmed(input)))
    }

    open spec fn failure(input: Seq<char>) -> Failure {
        parse_failure(input, "boolean (yes/no, true/false, y/n, 1/0)"@)
    }

    open spec fn name() -> Seq<char> {
        "boolean"@
    }

    fn parse(input: &str) -> (r: Result<Self, VelvetIOError>) {
        let t = trim_chars(&chars_of(input));
        let l = to_lower(&t);
        if is_text(&l, "true") || is_text(&l, "t") || is_text(&l, "yes") || is_text(&l, "y")
            || is_text(&l, "1") || is_text(&l, "on") {
            Ok(true)
        } else if is_text(&l, "false") || is_text(&l, "f") || is_text(&l, "no") || is_text(&l, "n")
            || is_text(&l, "0") || is_text(&l, "off") {
            Ok(false)
        } else {
            Err(VelvetIOError::parse_error(input, "boolean (yes/no, true/false, y/n, 1/0)"))
        }
    }

    fn describe() -> (r: &'static str) {
        "boolean"
    }
}

impl Parse for char {
    open spec fn obeys_parse_spec() -> bool {
        true
    }

    open spec fn accepts(input: Seq<char>) -> bool {
        trimmed(input).len() == 1
    }

    open spec fn denotes(input: Seq<char>, value: Self) -> bool {
        value == trimmed(input)[0]
    }

    open spec fn failure(input: Seq<char>) -> Failure {
        parse_failure(input, "single character"@)
    }

    open spec fn name() -> Seq<char> {
        "character"@
    }

    fn parse(input: &str) -> (r: Result<Self, VelvetIOError>) {
        let t = trim_chars(&chars_of(input));
        if t.len() == 1 {
            Ok(t[0])
        } else {
            Err(VelvetIOError::parse_error(input, "single character"))
        }
    }

    fn describe() -> (r: &'static str) {
        "character"
    }
}

/// Whether the trimmed text `t` stands for "no value".
pub open spec fn is_absent(t: Seq<char>) -> bool {
    let l = lowercase(t);
    t.len() == 0 || l == "none"@ || l == "null"@ || l == "nil"@ || l == "-"@ || l == "skip"@
}

impl<T: Parse> Parse for Option<T> {
    open spec fn obeys_parse_spec() -> bool {
        T::obeys_parse_spec()
    }

    open spec fn accepts(input: Seq<char>) -> bool {
        is_absent(trimmed(input)) || T::accepts(trimmed(input))
    }

    open spec fn denotes(input: Seq<char>, value: Self) -> bool {
        if is_absent(trimmed(input)) {
            value is None
        } else {
            value is Some && T::denotes(trimmed(input), value->Some_0)
        }
    }

    open spec fn failure(input: Seq<char>) -> Failure {
        T::failure(trimmed(input))
    }

    open spec fn name() -> Seq<char> {
        "optional value (or empty/none for no value)"@
    }

    fn parse(input: &str) -> (r: Result<Self, VelvetIOError>) {
        let t = trim_chars(&chars_of(input));
        if t.len() == 0 {
            return Ok(None);
        }
        let l = to_lower(&t);
        if is_text(&l, "none") || is_text(&l, "null") || is_text(&l, "nil") || is_text(&l, "-")
            || is_text(&l, "skip") {
            return Ok(None);
        }
        let text = string_of(&t);
        match T::parse(text.as_str()) {
            Ok(value) => Ok(Some(value)),
            Err(e) => Err(e),
        }
    }

    fn describe() -> (r: &'static str) {
        "optional value (or empty/none for no value)"
    }
}

/// The items of a list written as the trimmed text `t`. The separator is the
/// first of comma, semicolon and pipe that occurs in `t`; pieces are trimmed
/// and empty ones dropped. With none of the three the items are the words of
/// `t`.
pub open spec fn list_items(t: Seq<char>) -> Seq<Seq<char>> {
    if t.len() == 0 {
        Seq::empty()
    } else if t.contains(',') {
        non_empty(trimmed_each(pieces(t, ',')))
    } else if t.contains(';') {
        non_empty(trimmed_each(pieces(t, ';')))
    } else if t.contains('|') {
        non_empty(trimmed_each(pieces(t, '|')))
    } else {
        words(t)
    }
}

/// Cuts the trimmed text of a list into its items.
pub fn split_list(input: &str) -> (r: Vec<Vec<char>>)
    ensures
        texts(r@) == list_items(trimmed(input@)),
{
    let t = trim_chars(&chars_of(input));
    if t.len() == 0 {
        let r: Vec<Vec<char>> = Vec::new();
        assert(texts(r@) =~= Seq::<Seq<char>>::empty());
        r
    } else if has_char(&t, ',') {
        drop_empty(trim_each(&split_chars(&t, ',')))
    } else if has_char(&t, ';') {
        drop_empty(trim_each(&split_chars(&t, ';')))
    } else if has_char(&t, '|') {
        drop_empty(trim_each(&split_chars(&t, '|')))
    } else {
        split_words(&t)
    }
}

impl<T: Parse> Parse for Vec<T> {
    open spec fn obeys_parse_spec() -> bool {
        T::obeys_parse_spec()
    }

    open spec fn accepts(input: Seq<char>) -> bool {
        let items = list_items(trimmed(input));
        forall|i: int| 0 <= i < items.len() ==> T::accepts(#[trigger] items[i])
    }

    open spec fn denotes(input: Seq<char>, value: Self) -> bool {
        let items = list_items(trimmed(input));
        &&& value@.len() == items.len()
        &&& forall|i: int| 0 <= i < items.len() ==> T::denotes(#[trigger] items[i], value@[i])
    }

    open spec fn failure(input: Seq<char>) -> Failure {
        parse_failure(input, "list of "@ + T::name())
    }

    open spec fn name() -> Seq<char> {
        "list of values"@
    }

    fn parse(input: &str) -> (r: Result<Self, VelvetIOError>) {
        let items = split_list(input);
        let ghost want = list_items(trimmed(input@));
        let mut results: Vec<T> = Vec::new();
        let mut i: usize = 0;
        while i < items.len()
            invariant
                i <= items.len(),
                texts(items@) == want,
                want == list_items(trimmed(input@)),
                results@.len() == i,
                T::obeys_parse_spec() ==> forall|k: int|
                    0 <= k < i ==> T::accepts(#[trigger] want[k]),
                T::obeys_parse_spec() ==> forall|k: int|
                    0 <= k < i ==> T::denotes(#[trigger] want[k], results@[k]),
            decreases items.len() - i,
        {
            let text = string_of(&items[i]);
            assert(text@ == want[i as int]);
            match T::parse(text.as_str()) {
                Ok(value) => {
                    results.push(value);
                },
                Err(_) => {
                    let mut expected = "list of ".to_owned();
                    expected.append(T::describe());
                    return Err(VelvetIOError::parse_error(input, expected.as_str()));
                },
            }
            i = i + 1;
        }
        Ok(results)
    }

    fn describe() -> (r: &'static str) {
        "list of values"
    }
}

/// The parts of a tuple written as `input`: cut at commas and trimmed where
/// `input` holds a comma, else its words.
pub open spec fn tuple_parts(input: Seq<char>) -> Seq<Seq<char>> {
    if input.contains(',') {
        trimmed_each(pieces(input, ','))
    } else {
        words(input)
    }
}

/// Whether `parts` are exactly `arity` parts, none of them empty.
pub open spec fn has_arity(parts: Seq<Seq<char>>, arity: nat) -> bool {
    &&& parts.len() == arity
    &&& forall|i: int| 0 <= i < parts.len() ==> (#[trigger] parts[i]).len() > 0
}

/// Cuts the text of a tuple into its parts.
pub fn split_tuple(input: &str) -> (r: Vec<Vec<char>>)
    ensures
        texts(r@) == tuple_parts(input@),
{
    let v = chars_of(input);
    if has_char(&v, ',') {
        trim_each(&split_chars(&v, ','))
    } else {
        split_words(&v)
    }
}

/// Whether `parts` are exactly `arity` parts, none of them empty.
pub fn check_arity(parts: &Vec<Vec<char>>, arity: usize) -> (r: bool)
    ensures
        r == has_arity(texts(parts@), arity as nat),
{
    if parts.len() != arity {
        return false;
    }
    let mut i: usize = 0;
    while i < parts.len()
        invariant
            i <= parts.len(),
            forall|k: int| 0 <= k < i ==> (#[trigger] texts(parts@)[k]).len() > 0,
        decreases parts.len() - i,
    {
        if parts[i].len() == 0 {
            assert(texts(parts@)[i as int].len() == 0);
            return false;
        }
        i = i + 1;
    }
    true
}

/// How a pair of the two named types is described.
pub open spec fn pair_name(first: Seq<char>, second: Seq<char>) -> Seq<char> {
    "pair: "@ + first + " and "@ + second
}

impl<T1: Parse, T2: Parse> Parse for (T1, T2) {
    open spec fn obeys_parse_spec() -> bool {
        T1::obeys_parse_spec() && T2::obeys_parse_spec()
    }

    open spec fn accepts(input: Seq<char>) -> bool {
        let parts = tuple_parts(input);
        has_arity(parts, 2) && T1::accepts(parts[0]) && T2::accepts(parts[1])
    }

    open spec fn denotes(input: Seq<char>, value: Self) -> bool {
        let parts = tuple_parts(input);
        T1::denotes(parts[0], value.0) && T2::denotes(parts[1], value.1)
    }

    open spec fn failure(input: Seq<char>) -> Failure {
        if has_arity(tuple_parts(input), 2) {
            parse_failure(input, pair_name(T1::name(), T2::name()))
        } else {
            parse_failure(input, "pair of values (separate with comma or space)"@)
        }
    }

    open spec fn name() -> Seq<char> {
        "pair of values"@
    }

    fn parse(input: &str) -> (r: Result<Self, VelvetIOError>) {
        let parts = split_tuple(input);
        if !check_arity(&parts, 2) {
            return Err(
                VelvetIOError::parse_error(input, "pair of values (separate with comma or space)"),
            );
        }
        assert(texts(parts@)[0] == parts@[0]@ && texts(parts@)[1] == parts@[1]@);
        let first = T1::parse(string_of(&parts[0]).as_str());
        let second = T2::parse(string_of(&parts[1]).as_str());
        match (first, second) {
            (Ok(a), Ok(b)) => Ok((a, b)),
            _ => {
                let mut expected = "pair: ".to_owned();
                expected.append(T1::describe());
                expected.append(" and ");
                expected.append(T2::describe());
                Err(VelvetIOError::parse_error(input, expected.as_str()))
            },
        }
    }

    fn describe() -> (r: &'static str) {
        "pair of values"
    }
}

impl<T1: Parse, T2: Parse, T3: Parse> Parse for (T1, T2, T3) {
    open spec fn obeys_parse_spec() -> bool {
        T1::obeys_parse_spec() && T2::obeys_parse_spec() && T3::obeys_parse_spec()
    }

    open spec fn accepts(input: Seq<char>) -> bool {
        let parts = tuple_parts(input);
        has_arity(parts, 3) && T1::accepts(parts[0]) && T2::accepts(parts[1]) && T3::accepts(
            parts[2],
        )
    }

    open spec fn denotes(input: Seq<char>, value: Self) -> bool {
        let parts = tuple_parts(input);
        T1::denotes(parts[0], value.0) && T2::denotes(parts[1], value.1) && T3::denotes(
            parts[2],
            value.2,
        )
    }

    open spec fn failure(input: Seq<char>) -> Failure {
        if has_arity(tuple_parts(input), 3) {
            parse_failure(input, "triple of values"@)
        } else {
            parse_failure(input, "triple of values (separate with comma or space)"@)
        }
    }

    open spec fn name() -> Seq<char> {
        "triple of values"@
    }

    fn parse(input: &str) -> (r: Result<Self, VelvetIOError>) {
        let parts = split_tuple(input);
        if !check_arity(&parts, 3) {
            return Err(
                VelvetIOError::parse_error(
                    input,
                    "triple of values (separate with comma or space)",
                ),
            );
        }
        assert(texts(parts@)[0] == parts@[0]@ && texts(parts@)[1] == parts@[1]@ && texts(
            parts@,
        )[2] == parts@[2]@);
        let first = T1::parse(string_of(&parts[0]).as_str());
        let second = T2::parse(string_of(&parts[1]).as_str());
        let third = T3::parse(string_of(&parts[2]).as_str());
        match (first, second, third) {
            (Ok(a), Ok(b), Ok(c)) => Ok((a, b, c)),
            _ => Err(VelvetIOError::parse_error(input, "triple of values")),
        }
    }

    fn describe() -> (r: &'static str) {
        "triple of values"
    }
}

/// Round trip of text: every text is accepted and stands for itself alone.
pub proof fn text_round_trip(s: Seq<char>, v: String)
    ensures
        String::accepts(s),
        String::denotes(s, v) <==> v@ == s,
{
}

/// Round trip of characters: the text made of one character that is not
/// white space is accepted and stands for that character.
pub proof fn character_round_trip(c: char)
    requires
        !is_whitespace(c),
    ensures
        char::accepts(seq![c]),
        char::denotes(seq![c], c),
{
    trimmed_keeps(seq![c]);
}

/// Round trip of booleans over the words: "true" is a word for yes and none
/// for no, "false" a word for no and none for yes.
pub proof fn boolean_words_round_trip()
    ensures
        is_yes("true"@) && !is_no("true"@),
        is_no("false"@) && !is_yes("false"@),
{
    reveal_strlit("true");
    reveal_strlit("t");
    reveal_strlit("yes");
    reveal_strlit("y");
    reveal_strlit("1");
    reveal_strlit("on");
    reveal_strlit("false");
    reveal_strlit("f");
    reveal_strlit("no");
    reveal_strlit("n");
    reveal_strlit("0");
    reveal_strlit("off");
    assert("true"@.len() == 4 && "false"@.len() == 5);
    assert("true"@[0] == 't' && "false"@[0] == 'f' );
}

} // verus!
