//! The form builder: an ordered list of field declarations, what each field
//! does with one reply, and the result that the answers make.
use vstd::prelude::*;
use crate::error::{channel_failure, parse_failure, VelvetIOError};
use crate::numbers::decimal_text;
use crate::parser::{is_yes, Parse};
use crate::prompt::{
    ask, ask_with_validation, choose_one, choose_prompt, diagnostic, labels_of, line_number, menu,
    menu_lines, multi_select, multi_select_spec, out_of_menu, prompt_line, selection_hint,
    selection_menu, selection_prompt, show, Attempt, Reply, Selection,
};
use crate::text::{chars_of, lowercase, same_chars, trimmed, trimmed_twice};
use crate::validators::total;

verus! {

/// What a field does with the text that it was given.
#[derive(Debug, PartialEq, Eq)]
pub enum FieldType {
    /// Free text.
    Text,
    /// A decimal number, which the caller parses and writes back as text.
    Number,
    /// A yes-or-no answer.
    Boolean,
    /// One of the listed options.
    Choice(Vec<String>),
    /// Any number of the listed options.
    MultiChoice(Vec<String>),
    /// Free text that may be left empty.
    Optional,
    /// Free text that a predicate of the caller must let through; the message
    /// is shown where it does not.
    ValidatedText { error_msg: String },
}

/// One declared field of a form.
#[derive(Debug, PartialEq, Eq)]
pub struct FormField {
    pub key: String,
    pub prompt: String,
    pub field_type: FieldType,
}

/// A field's kind, as plain text.
pub enum Kind {
    Text,
    Number,
    Boolean,
    Choice(Seq<Seq<char>>),
    MultiChoice(Seq<Seq<char>>),
    Optional,
    ValidatedText(Seq<char>),
}

/// A field, as plain text.
pub struct Field {
    pub key: Seq<char>,
    pub prompt: Seq<char>,
    pub kind: Kind,
}

impl View for FieldType {
    type V = Kind;

    open spec fn view(&self) -> Kind {
        match *self {
            FieldType::Text => Kind::Text,
            FieldType::Number => Kind::Number,
            FieldType::Boolean => Kind::Boolean,
            FieldType::Choice(options) => Kind::Choice(labels_of(options@)),
            FieldType::MultiChoice(options) => Kind::MultiChoice(labels_of(options@)),
            FieldType::Optional => Kind::Optional,
            FieldType::ValidatedText { error_msg } => Kind::ValidatedText(error_msg@),
        }
    }
}

impl View for FormField {
    type V = Field;

    open spec fn view(&self) -> Field {
        Field { key: self.key@, prompt: self.prompt@, kind: self.field_type@ }
    }
}

/// What a field does after one reply.
#[derive(Debug, PartialEq, Eq)]
pub enum FieldStep {
    /// The field is answered; this is its value, written as text.
    Stored(String),
    /// The diagnostic is shown and the field starts again.
    Retry(String),
    /// The diagnostic is shown and the line is read again.
    Reread(String),
    /// The trimmed line of a number field. The caller parses it as a decimal
    /// number: the number written back as text is the field's value, and for
    /// a text that is no number `number_refusal` gives the diagnostic.
    Decimal(String),
}

/// The texts of `items` joined with a comma and a space.
pub open spec fn joined(items: Seq<Seq<char>>) -> Seq<char>
    decreases items.len(),
{
    if items.len() == 0 {
        Seq::empty()
    } else if items.len() == 1 {
        items[0]
    } else {
        joined(items.drop_last()) + ", "@ + items.last()
    }
}

/// The texts of the strings that `picked` refers to.
pub open spec fn picked_texts(picked: Seq<&String>) -> Seq<Seq<char>> {
    Seq::new(picked.len(), |i: int| picked[i]@)
}

/// A boolean written as text: "true" or "false".
pub open spec fn bool_text_spec(b: bool) -> Seq<char> {
    if b {
        "true"@
    } else {
        "false"@
    }
}

/// A boolean written as text: "true" or "false".
pub fn bool_text(b: bool) -> (r: String)
    ensures
        r@ == bool_text_spec(b),
{
    if b {
        "true".to_owned()
    } else {
        "false".to_owned()
    }
}

/// The selected options joined with a comma and a space.
pub fn join_selected(picked: &Vec<&String>) -> (r: String)
    ensures
        r@ == joined(picked_texts(picked@)),
{
    let mut r = String::new();
    let mut i: usize = 0;
    let ghost all = picked_texts(picked@);
    assert(all.subrange(0, 0) =~= Seq::<Seq<char>>::empty());
    while i < picked.len()
        invariant
            i <= picked.len(),
            all == picked_texts(picked@),
            r@ == joined(all.subrange(0, i as int)),
        decreases picked.len() - i,
    {
        if i > 0 {
            r.append(", ");
        }
        r.append(picked[i].as_str());
        i = i + 1;
        proof {
            let now = all.subrange(0, i as int);
            assert(now.drop_last() =~= all.subrange(0, i - 1));
            assert(now.last() == picked@[i - 1]@);
            if i == 1 {
                assert(r@ =~= now[0]);
            }
        }
    }
    assert(all.subrange(0, i as int) =~= all);
    r
}

impl FormField {
    /// One round of this field: the reply goes to the prompt that the field's
    /// kind stands for, and a value comes back written as text.
    ///
    /// Free text and optional text store the trimmed line. A number field
    /// hands the trimmed line back to be parsed. A boolean field stores
    /// "true" or "false". A choice stores the option chosen, a multiple
    /// choice the options selected, joined with ", ". Validated text stores
    /// the trimmed line where `validator` lets it through, and else shows the
    /// field's message. `validator` is asked by no other kind of field.
    pub fn answer<F>(&self, reply: &Reply, validator: F) -> (out: FieldStep) where
        F: Fn(&String) -> bool,

        requires
            total(validator),
            self@.kind is Choice ==> self@.kind->Choice_0.len() > 0,
        ensures
            match self@.kind {
                Kind::Text | Kind::Optional => match *reply {
                    Reply::Line(line) => out is Stored && out->Stored_0@ == trimmed(line@),
                    Reply::Failed(detail) => out is Retry && out->Retry_0@ == diagnostic(
                        channel_failure(detail@).message,
                    ),
                },
                Kind::Number => match *reply {
                    Reply::Line(line) => out is Decimal && out->Decimal_0@ == trimmed(line@),
                    Reply::Failed(detail) => out is Retry && out->Retry_0@ == diagnostic(
                        channel_failure(detail@).message,
                    ),
                },
                Kind::Boolean => match *reply {
                    Reply::Line(line) => if bool::accepts(line@) {
                        out is Stored && out->Stored_0@ == bool_text_spec(
                            is_yes(lowercase(trimmed(line@))),
                        )
                    } else {
                        out is Retry && out->Retry_0@ == diagnostic(
                            bool::failure(trimmed(line@)).message,
                        )
                    },
                    Reply::Failed(detail) => out is Retry && out->Retry_0@ == diagnostic(
                        channel_failure(detail@).message,
                    ),
                },
                Kind::Choice(options) => match *reply {
                    Reply::Line(line) => match line_number(line@) {
                        Some(n) => if 1 <= n <= options.len() {
                            out is Stored && out->Stored_0@ == options[n - 1]
                        } else {
                            out is Retry && out->Retry_0@ == diagnostic(out_of_menu(options.len()))
                        },
                        None => out is Retry && out->Retry_0@ == diagnostic(
                            parse_failure(trimmed(line@), "positive integer"@).message,
                        ),
                    },
                    Reply::Failed(detail) => out is Retry && out->Retry_0@ == diagnostic(
                        channel_failure(detail@).message,
                    ),
                },
                Kind::MultiChoice(options) => exists|sel: Selection<String>| #[trigger]
                    multi_select_spec(self.field_type->MultiChoice_0@, *reply, sel) && match sel {
                        Selection::Chosen(picked) => out is Stored && out->Stored_0@ == joined(
                            picked_texts(picked@),
                        ),
                        Selection::Reread(d) => out is Reread && out->Reread_0@ == d@,
                        Selection::Restart(d) => out is Retry && out->Retry_0@ == d@,
                    },
                Kind::ValidatedText(message) => match *reply {
                    Reply::Line(line) => {
                        &&& out is Stored ==> out->Stored_0@ == trimmed(line@) && call_ensures(
                            validator,
                            (&out->Stored_0,),
                            true,
                        )
                        &&& out is Retry ==> out->Retry_0@ == diagnostic(message) && exists|
                            v: String,
                        | #[trigger]
                            call_ensures(validator, (&v,), false) && v@ == trimmed(line@)
                        &&& out is Stored || out is Retry
                    },
                    Reply::Failed(detail) => out is Retry && out->Retry_0@ == diagnostic(
                        channel_failure(detail@).message,
                    ),
                },
            },
    {
        proof {
            if reply is Line {
                trimmed_twice(reply->Line_0@);
            }
        }
        match &self.field_type {
            FieldType::Text | FieldType::Optional => match ask::<String>(reply) {
                Attempt::Done(value) => FieldStep::Stored(value),
                Attempt::Retry(d) => FieldStep::Retry(d),
            },
            FieldType::Number => match ask::<String>(reply) {
                Attempt::Done(value) => FieldStep::Decimal(value),
                Attempt::Retry(d) => FieldStep::Retry(d),
            },
            FieldType::Boolean => match ask::<bool>(reply) {
                Attempt::Done(value) => FieldStep::Stored(bool_text(value)),
                Attempt::Retry(d) => FieldStep::Retry(d),
            },
            FieldType::Choice(options) => {
                assert(labels_of(options@).len() == options@.len());
                match choose_one(options.as_slice(), reply) {
                    Attempt::Done(option) => FieldStep::Stored(option.clone()),
                    Attempt::Retry(d) => FieldStep::Retry(d),
                }
            },
            FieldType::MultiChoice(options) => match multi_select(options.as_slice(), reply) {
                Selection::Chosen(picked) => FieldStep::Stored(join_selected(&picked)),
                Selection::Reread(d) => FieldStep::Reread(d),
                Selection::Restart(d) => FieldStep::Retry(d),
            },
            FieldType::ValidatedText { error_msg } => match ask_with_validation::<String, F>(
                reply,
                validator,
                Some(error_msg.as_str()),
            ) {
                Attempt::Done(value) => FieldStep::Stored(value),
                Attempt::Retry(d) => FieldStep::Retry(d),
            },
        }
    }

    /// The diagnostic of a number field for a line whose trimmed text `text`
    /// is no decimal number: the parse failure, as it is shown.
    pub fn number_refusal(text: &str) -> (d: String)
        ensures
            d@ == diagnostic(parse_failure(text@, "decimal number"@).message),
    {
        let e = VelvetIOError::parse_error(text, "decimal number");
        show(e.message.as_str())
    }

    /// Whether the field asks nothing: a multiple choice without options,
    /// which is answered with the empty selection whatever the reply.
    pub fn is_silent(&self) -> (r: bool)
        ensures
            r == (self@.kind is MultiChoice && self@.kind->MultiChoice_0.len() == 0),
    {
        match &self.field_type {
            FieldType::MultiChoice(options) => options.len() == 0,
            _ => false,
        }
    }

    /// The menu that stands above the field's question: that of a choice or
    /// of a multiple choice with options, and none for any other field.
    pub fn menu(&self) -> (r: Option<String>)
        ensures
            match self@.kind {
                Kind::Choice(options) => r is Some && r->Some_0@ == self@.prompt + ":\n"@
                    + menu_lines(options, options.len()),
                Kind::MultiChoice(options) => if options.len() == 0 {
                    r is None
                } else {
                    r is Some && r->Some_0@ == self@.prompt + ":\n"@ + menu_lines(
                        options,
                        options.len(),
                    ) + selection_hint()
                },
                _ => r is None,
            },
    {
        match &self.field_type {
            FieldType::Choice(options) => Some(menu(self.prompt.as_str(), options)),
            FieldType::MultiChoice(options) => selection_menu(self.prompt.as_str(), options),
            _ => None,
        }
    }

    /// The text that the field shows before it reads a line: the prompt and
    /// a colon, but under the menu of a choice the range of the numbers, and
    /// under that of a multiple choice the word "Selection".
    pub fn question(&self) -> (r: String)
        ensures
            r@ == match self@.kind {
                Kind::Choice(options) => "Choose (1-"@ + decimal_text(options.len()) + ")"@
                    + ": "@,
                Kind::MultiChoice(_) => "Selection: "@,
                _ => self@.prompt + ": "@,
            },
    {
        match &self.field_type {
            FieldType::Choice(options) => prompt_line(choose_prompt(options.len()).as_str()),
            FieldType::MultiChoice(_) => selection_prompt(),
            _ => prompt_line(self.prompt.as_str()),
        }
    }
}

/// The fields that a vector of declarations holds, as plain text.
pub open spec fn fields_of(v: Seq<FormField>) -> Seq<Field> {
    Seq::new(v.len(), |i: int| v[i]@)
}

/// The texts of a slice of string slices.
pub open spec fn slices_of(v: Seq<&str>) -> Seq<Seq<char>> {
    Seq::new(v.len(), |i: int| v[i]@)
}

/// The keys of `fields`, in order.
pub open spec fn keys_of(fields: Seq<Field>) -> Seq<Seq<char>> {
    Seq::new(fields.len(), |i: int| fields[i].key)
}

/// The entries that a vector of pairs of strings holds, as plain text.
pub open spec fn pairs_of(v: Seq<(String, String)>) -> Seq<(Seq<char>, Seq<char>)> {
    Seq::new(v.len(), |i: int| (v[i].0@, v[i].1@))
}

/// Whether some entry has the key `key`.
pub open spec fn has_key(entries: Seq<(Seq<char>, Seq<char>)>, key: Seq<char>) -> bool {
    exists|i: int| 0 <= i < entries.len() && (#[trigger] entries[i]).0 == key
}

/// Whether some entry gives `key` the value `value`.
pub open spec fn holds(
    entries: Seq<(Seq<char>, Seq<char>)>,
    key: Seq<char>,
    value: Seq<char>,
) -> bool {
    exists|i: int| 0 <= i < entries.len() && #[trigger] entries[i] == (key, value)
}

/// Whether no two entries have the same key.
pub open spec fn distinct_keys(entries: Seq<(Seq<char>, Seq<char>)>) -> bool {
    forall|i: int, j: int|
        0 <= i < j < entries.len() ==> (#[trigger] entries[i]).0 != (#[trigger] entries[j]).0
}

/// The entries after `key` was given `value`: an entry with that key keeps
/// its place and takes the new value; a new key goes to the end.
pub open spec fn put(
    entries: Seq<(Seq<char>, Seq<char>)>,
    key: Seq<char>,
    value: Seq<char>,
) -> Seq<(Seq<char>, Seq<char>)> {
    if has_key(entries, key) {
        Seq::new(
            entries.len(),
            |i: int|
                if entries[i].0 == key {
                    (key, value)
                } else {
                    entries[i]
                },
        )
    } else {
        entries.push((key, value))
    }
}

/// The entries after the first `upto` of `keys` were given, one after the
/// other, the values at the same places in `values`.
pub open spec fn assembled(keys: Seq<Seq<char>>, values: Seq<Seq<char>>, upto: nat) -> Seq<
    (Seq<char>, Seq<char>),
>
    decreases upto,
{
    if upto == 0 {
        Seq::empty()
    } else {
        put(assembled(keys, values, (upto - 1) as nat), keys[upto - 1], values[upto - 1])
    }
}

/// What a form collected: each key with its value, in the order in which the
/// keys first came. No key occurs twice.
pub struct FormResult {
    entries: Vec<(String, String)>,
}

impl View for FormResult {
    type V = Seq<(Seq<char>, Seq<char>)>;

    closed spec fn view(&self) -> Seq<(Seq<char>, Seq<char>)> {
        pairs_of(self.entries@)
    }
}

impl FormResult {
    /// Whether no key occurs twice. Every result that this module makes is
    /// well formed.
    pub open spec fn well_formed(&self) -> bool {
        distinct_keys(self@)
    }

    /// A result with no entry.
    pub fn new() -> (r: Self)
        ensures
            r@ == Seq::<(Seq<char>, Seq<char>)>::empty(),
            r.well_formed(),
    {
        let r = FormResult { entries: Vec::new() };
        assert(pairs_of(r.entries@) =~= Seq::empty());
        r
    }

    /// The number of entries.
    pub fn len(&self) -> (n: usize)
        ensures
            n == self@.len(),
    {
        self.entries.len()
    }

    /// The entries, in the order in which their keys first came.
    pub fn entries(&self) -> (r: &Vec<(String, String)>)
        ensures
            pairs_of(r@) == self@,
    {
        &self.entries
    }

    /// The value that `key` has, if it has one.
    pub fn get(&self, key: &str) -> (r: Option<&String>)
        ensures
            match r {
                Some(value) => holds(self@, key@, value@),
                None => !has_key(self@, key@),
            },
    {
        let wanted = chars_of(key);
        let mut i: usize = 0;
        while i < self.entries.len()
            invariant
                i <= self.entries.len(),
                wanted@ == key@,
                forall|k: int| 0 <= k < i ==> (#[trigger] pairs_of(self.entries@)[k]).0 != key@,
            decreases self.entries.len() - i,
        {
            let found = chars_of(self.entries[i].0.as_str());
            if same_chars(&found, &wanted) {
                assert(pairs_of(self.entries@)[i as int] == (key@, self.entries@[i as int].1@));
                return Some(&self.entries[i].1);
            }
            i = i + 1;
        }
        None
    }

    /// Gives `key` the value `value`. A key that is there keeps its place
    /// and loses its earlier value; a new key goes to the end.
    #[verifier::loop_isolation(false)]
    pub fn insert(&mut self, key: String, value: String)
        requires
            old(self).well_formed(),
        ensures
            final(self)@ == put(old(self)@, key@, value@),
            final(self).well_formed(),
    {
        let ghost before = pairs_of(self.entries@);
        let wanted = chars_of(key.as_str());
        let mut i: usize = 0;
        while i < self.entries.len()
            invariant
                i <= self.entries.len(),
                wanted@ == key@,
                before == pairs_of(self.entries@),
                distinct_keys(before),
                forall|k: int| 0 <= k < i ==> (#[trigger] before[k]).0 != key@,
            decreases self.entries.len() - i,
        {
            let found = chars_of(self.entries[i].0.as_str());
            if same_chars(&found, &wanted) {
                assert(before[i as int].0 == key@);
                self.entries.set(i, (key, value));
                assert(pairs_of(self.entries@) =~= put(before, key@, value@));
                assert(distinct_keys(pairs_of(self.entries@)));
                return ;
            }
            i = i + 1;
        }
        self.entries.push((key, value));
        assert(pairs_of(self.entries@) =~= put(before, key@, value@));
        assert(distinct_keys(pairs_of(self.entries@)));
    }
}

/// The declarations of a form, in the order in which they were made.
pub struct Form {
    fields: Vec<FormField>,
}

impl View for Form {
    type V = Seq<Field>;

    closed spec fn view(&self) -> Seq<Field> {
        fields_of(self.fields@)
    }
}

fn owned_labels(choices: &[&str]) -> (r: Vec<String>)
    ensures
        labels_of(r@) == slices_of(choices@),
{
    let mut r: Vec<String> = Vec::new();
    let mut i: usize = 0;
    while i < choices.len()
        invariant
            i <= choices.len(),
            r@.len() == i,
            forall|k: int| 0 <= k < i ==> (#[trigger] r@[k])@ == choices@[k]@,
        decreases choices.len() - i,
    {
        r.push(choices[i].to_owned());
        i = i + 1;
    }
    assert(labels_of(r@) =~= slices_of(choices@));
    r
}

impl Form {
    /// A form with no field.
    pub fn new() -> (r: Self)
        ensures
            r@ == Seq::<Field>::empty(),
    {
        let r = Form { fields: Vec::new() };
        assert(fields_of(r.fields@) =~= Seq::empty());
        r
    }

    fn with(self, key: &str, prompt: String, field_type: FieldType) -> (r: Self)
        ensures
            r@ == self@.push(Field { key: key@, prompt: prompt@, kind: field_type@ }),
    {
        let mut form = self;
        form.fields.push(FormField { key: key.to_owned(), prompt, field_type });
        assert(fields_of(form.fields@) =~= fields_of(self.fields@).push(
            Field { key: key@, prompt: prompt@, kind: field_type@ },
        ));
        form
    }

    /// Declares a field of free text.
    pub fn text(self, key: &str, prompt: &str) -> (r: Self)
        ensures
            r@ == self@.push(Field { key: key@, prompt: prompt@, kind: Kind::Text }),
    {
        self.with(key, prompt.to_owned(), FieldType::Text)
    }

    /// Declares a field for a decimal number.
    pub fn number(self, key: &str, prompt: &str) -> (r: Self)
        ensures
            r@ == self@.push(Field { key: key@, prompt: prompt@, kind: Kind::Number }),
    {
        self.with(key, prompt.to_owned(), FieldType::Number)
    }

    /// Declares a field for a yes-or-no answer.
    pub fn boolean(self, key: &str, prompt: &str) -> (r: Self)
        ensures
            r@ == self@.push(Field { key: key@, prompt: prompt@, kind: Kind::Boolean }),
    {
        self.with(key, prompt.to_owned(), FieldType::Boolean)
    }

    /// Declares a field for one of `choices`.
    pub fn choice(self, key: &str, prompt: &str, choices: &[&str]) -> (r: Self)
        ensures
            r@ == self@.push(
                Field { key: key@, prompt: prompt@, kind: Kind::Choice(slices_of(choices@)) },
            ),
    {
        self.with(key, prompt.to_owned(), FieldType::Choice(owned_labels(choices)))
    }

    /// Declares a field for any number of `choices`.
    pub fn multi_choice(self, key: &str, prompt: &str, choices: &[&str]) -> (r: Self)
        ensures
            r@ == self@.push(
                Field { key: key@, prompt: prompt@, kind: Kind::MultiChoice(slices_of(choices@)) },
            ),
    {
        self.with(key, prompt.to_owned(), FieldType::MultiChoice(owned_labels(choices)))
    }

    /// Declares a field of free text that may be left empty; its prompt says
    /// so.
    pub fn optional(self, key: &str, prompt: &str) -> (r: Self)
        ensures
            r@ == self@.push(
                Field { key: key@, prompt: prompt@ + " (optional)"@, kind: Kind::Optional },
            ),
    {
        let mut shown = prompt.to_owned();
        shown.append(" (optional)");
        self.with(key, shown, FieldType::Optional)
    }

    /// Declares a field of free text that a predicate must let through. The
    /// form keeps the message; the predicate is handed to `FormField::answer`
    /// with each reply.
    pub fn validated_text(self, key: &str, prompt: &str, error_msg: &str) -> (r: Self)
        ensures
            r@ == self@.push(
                Field { key: key@, prompt: prompt@, kind: Kind::ValidatedText(error_msg@) },
            ),
    {
        self.with(
            key,
            prompt.to_owned(),
            FieldType::ValidatedText { error_msg: error_msg.to_owned() },
        )
    }

    /// The declared fields, in order.
    pub fn fields(&self) -> (r: &Vec<FormField>)
        ensures
            fields_of(r@) == self@,
    {
        &self.fields
    }

    /// Makes the result of the form from the values of its fields, `values`
    /// holding one value for each field, in the order of the declarations.
    /// Each key is given its value in that order, so that of two fields with
    /// one key the later one decides the value.
    pub fn collect(self, values: Vec<String>) -> (r: FormResult)
        requires
            values@.len() == self@.len(),
        ensures
            r@ == assembled(keys_of(self@), labels_of(values@), self@.len()),
            r.well_formed(),
    {
        let mut r = FormResult::new();
        let mut i: usize = 0;
        while i < self.fields.len()
            invariant
                i <= self.fields.len(),
                values@.len() == self.fields@.len(),
                r@ == assembled(keys_of(self@), labels_of(values@), i as nat),
                r.well_formed(),
            decreases self.fields.len() - i,
        {
            r.insert(self.fields[i].key.clone(), values[i].clone());
            i = i + 1;
        }
        r
    }
}

/// A form with no field.
pub fn form() -> (r: Form)
    ensures
        r@ == Seq::<Field>::empty(),
{
    Form::new()
}

/// A form that is being filled in: its declarations, and the values of the
/// fields answered so far. The field to ask is always the first that has no
/// value yet, so the fields are asked in the order of their declarations.
pub struct Filling {
    form: Form,
    values: Vec<String>,
}

impl Filling {
    /// The declarations of the form.
    pub closed spec fn declared(&self) -> Seq<Field> {
        self.form@
    }

    /// The values stored so far, in the order of the declarations.
    pub closed spec fn stored(&self) -> Seq<Seq<char>> {
        labels_of(self.values@)
    }

    /// Whether no more values are stored than fields are declared.
    pub open spec fn well_formed(&self) -> bool {
        self.stored().len() <= self.declared().len()
    }

    /// The field to ask next: the one at the place of the first value that
    /// is missing, or none once every field has its value.
    pub fn current(&self) -> (r: Option<&FormField>)
        requires
            self.well_formed(),
        ensures
            match r {
                Some(field) => self.stored().len() < self.declared().len() && field@
                    == self.declared()[self.stored().len() as int],
                None => self.stored().len() == self.declared().len(),
            },
    {
        if self.values.len() < self.form.fields.len() {
            Some(&self.form.fields[self.values.len()])
        } else {
            None
        }
    }

    /// Stores the value of the field that was asked.
    pub fn store(&mut self, value: String)
        requires
            old(self).stored().len() < old(self).declared().len(),
        ensures
            final(self).declared() == old(self).declared(),
            final(self).stored() == old(self).stored().push(value@),
            final(self).well_formed(),
    {
        self.values.push(value);
        assert(labels_of(self.values@) =~= labels_of(old(self).values@).push(value@));
    }

    /// The result of the form, once every field has its value.
    pub fn finish(self) -> (r: FormResult)
        requires
            self.stored().len() == self.declared().len(),
        ensures
            r@ == assembled(keys_of(self.declared()), self.stored(), self.declared().len()),
            r.well_formed(),
    {
        self.form.collect(self.values)
    }
}

impl Form {
    /// Starts to fill the form in: no field has a value yet.
    pub fn begin(self) -> (r: Filling)
        ensures
            r.declared() == self@,
            r.stored() == Seq::<Seq<char>>::empty(),
            r.well_formed(),
    {
        let r = Filling { form: self, values: Vec::new() };
        assert(labels_of(r.values@) =~= Seq::<Seq<char>>::empty());
        r
    }
}

/// What giving `key` the value `value` does to entries with distinct keys:
/// the keys stay distinct, `key` is the one key that may be new, it has the
/// value `value`, and every other key keeps the value that it had.
pub proof fn put_keeps_the_rest(
    entries: Seq<(Seq<char>, Seq<char>)>,
    key: Seq<char>,
    value: Seq<char>,
)
    requires
        distinct_keys(entries),
    ensures
        distinct_keys(put(entries, key, value)),
        holds(put(entries, key, value), key, value),
        forall|k: Seq<char>|
            has_key(put(entries, key, value), k) <==> (k == key || has_key(entries, k)),
        forall|k: Seq<char>, v: Seq<char>|
            k != key && holds(entries, k, v) ==> holds(put(entries, key, value), k, v),
        put(entries, key, value).len() == if has_key(entries, key) {
            entries.len()
        } else {
            entries.len() + 1
        },
{
    let after = put(entries, key, value);
    if has_key(entries, key) {
        let at = choose|i: int| 0 <= i < entries.len() && (#[trigger] entries[i]).0 == key;
        assert(after[at] == (key, value));
        assert forall|i: int| 0 <= i < entries.len() implies (#[trigger] after[i]).0
            == entries[i].0 by {}
        assert forall|k: Seq<char>| has_key(after, k) <==> (k == key || has_key(entries, k)) by {
            if has_key(after, k) {
                let i = choose|i: int| 0 <= i < after.len() && (#[trigger] after[i]).0 == k;
                assert(entries[i].0 == k);
            }
            if has_key(entries, k) {
                let i = choose|i: int| 0 <= i < entries.len() && (#[trigger] entries[i]).0 == k;
                assert(after[i].0 == k);
            }
            if k == key {
                assert(after[at].0 == k);
            }
        }
        assert forall|k: Seq<char>, v: Seq<char>| k != key && holds(entries, k, v) implies holds(
            after,
            k,
            v,
        ) by {
            let i = choose|i: int| 0 <= i < entries.len() && #[trigger] entries[i] == (k, v);
            assert(after[i] == (k, v));
        }
    } else {
        let last = entries.len() as int;
        assert(after[last] == (key, value));
        assert forall|i: int, j: int| 0 <= i < j < after.len() implies (#[trigger] after[i]).0 != (
        #[trigger] after[j]).0 by {
            if j == last {
                assert(entries[i].0 != key);
            }
        }
        assert forall|k: Seq<char>| has_key(after, k) <==> (k == key || has_key(entries, k)) by {
            if has_key(after, k) {
                let i = choose|i: int| 0 <= i < after.len() && (#[trigger] after[i]).0 == k;
                if i < last {
                    assert(entries[i].0 == k);
                }
            }
            if has_key(entries, k) {
                let i = choose|i: int| 0 <= i < entries.len() && (#[trigger] entries[i]).0 == k;
                assert(after[i].0 == k);
            }
            if k == key {
                assert(after[last].0 == k);
            }
        }
        assert forall|k: Seq<char>, v: Seq<char>| k != key && holds(entries, k, v) implies holds(
            after,
            k,
            v,
        ) by {
            let i = choose|i: int| 0 <= i < entries.len() && #[trigger] entries[i] == (k, v);
            assert(after[i] == (k, v));
        }
    }
}

/// The result of a form holds exactly the declared keys, each once, and
/// gives each key the value of the last field that was declared with it.
/// `keys` and `values` are those of the first `n` fields, in the order of the
/// declarations.
pub proof fn collected_is_declared(keys: Seq<Seq<char>>, values: Seq<Seq<char>>, n: nat)
    requires
        n <= keys.len(),
        n <= values.len(),
    ensures
        distinct_keys(assembled(keys, values, n)),
        assembled(keys, values, n).len() <= n,
        forall|k: Seq<char>|
            has_key(assembled(keys, values, n), k) <==> (exists|i: int|
                0 <= i < n && #[trigger] keys[i] == k),
        forall|i: int|
            0 <= i < n && (forall|j: int| i < j < n ==> keys[j] != keys[i]) ==> holds(
                assembled(keys, values, n),
                #[trigger] keys[i],
                values[i],
            ),
    decreases n,
{
    if n > 0 {
        let m = (n - 1) as nat;
        let before = assembled(keys, values, m);
        let after = assembled(keys, values, n);
        collected_is_declared(keys, values, m);
        put_keeps_the_rest(before, keys[m as int], values[m as int]);
        assert forall|k: Seq<char>| has_key(after, k) <==> (exists|i: int|
            0 <= i < n && #[trigger] keys[i] == k) by {
            if has_key(after, k) {
                if k == keys[m as int] {
                } else {
                    assert(has_key(before, k));
                    let i = choose|i: int| 0 <= i < m && #[trigger] keys[i] == k;
                    assert(0 <= i < n && keys[i] == k);
                }
            }
            if exists|i: int| 0 <= i < n && #[trigger] keys[i] == k {
                let i = choose|i: int| 0 <= i < n && #[trigger] keys[i] == k;
                if i < m {
                    assert(has_key(before, k));
                }
            }
        }
        assert forall|i: int|
            0 <= i < n && (forall|j: int| i < j < n ==> keys[j] != keys[i]) implies holds(
            after,
            #[trigger] keys[i],
            values[i],
        ) by {
            if i < m {
                assert(keys[m as int] != keys[i]);
                assert(forall|j: int| i < j < m ==> keys[j] != keys[i]);
                assert(holds(before, keys[i], values[i]));
            }
        }
    }
}

} // verus!
