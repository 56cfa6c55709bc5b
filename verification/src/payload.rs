//! JSON bodies of API calls, described as plain values.
//!
//! A body is either one JSON object or a JSON array of objects; each object
//! is a list of named fields whose values are texts, numbers or lists of numbers.

use vstd::prelude::*;

verus! {

/// The value of one field of a JSON object.
#[derive(Debug, Clone)]
pub enum FieldValue {
    /// A JSON string.
    Text(String),
    /// A JSON number.
    Number(u64),
    /// A JSON array of numbers.
    Numbers(Vec<u64>),
}

/// What a field value stands for.
pub enum FieldValueView {
    Text(Seq<char>),
    Number(u64),
    Numbers(Seq<u64>),
}

impl View for FieldValue {
    type V = FieldValueView;

    open spec fn view(&self) -> FieldValueView {
        match self {
            FieldValue::Text(s) => FieldValueView::Text(s@),
            FieldValue::Number(n) => FieldValueView::Number(*n),
            FieldValue::Numbers(v) => FieldValueView::Numbers(v@),
        }
    }
}

/// One named field of a JSON object.
#[derive(Debug, Clone)]
pub struct Field {
    /// The field's name.
    pub name: String,
    /// The field's value.
    pub value: FieldValue,
}

/// A field, as its name and what its value stands for.
pub type FieldView = (Seq<char>, FieldValueView);

impl View for Field {
    type V = FieldView;

    open spec fn view(&self) -> FieldView {
        (self.name@, self.value@)
    }
}

/// The fields of an object, in order.
pub open spec fn fields_view(v: Seq<Field>) -> Seq<FieldView> {
    v.map_values(|f: Field| f@)
}

/// The body of an API call.
#[derive(Debug, Clone)]
pub enum Payload {
    /// One JSON object.
    Object(Vec<Field>),
    /// A JSON array of objects.
    Array(Vec<Vec<Field>>),
}

/// What a body stands for.
pub enum PayloadView {
    Object(Seq<FieldView>),
    Array(Seq<Seq<FieldView>>),
}

impl View for Payload {
    type V = PayloadView;

    open spec fn view(&self) -> PayloadView {
        match self {
            Payload::Object(fields) => PayloadView::Object(fields_view(fields@)),
            Payload::Array(objects) => PayloadView::Array(
                objects@.map_values(|o: Vec<Field>| fields_view(o@)),
            ),
        }
    }
}

/// A text field, if the text is there.
pub open spec fn opt_text_field(name: Seq<char>, value: Option<String>) -> Seq<FieldView> {
    match value {
        Some(s) => seq![(name, FieldValueView::Text(s@))],
        None => seq![],
    }
}

/// The object has a field with this name and this value.
pub open spec fn has_field(fs: Seq<FieldView>, name: Seq<char>, v: FieldValueView) -> bool {
    exists|i: int| 0 <= i < fs.len() && #[trigger] fs[i] == (name, v)
}

/// A field is in two objects put together exactly when it is in one of them.
pub proof fn lemma_has_field_concat(
    a: Seq<FieldView>,
    b: Seq<FieldView>,
    name: Seq<char>,
    v: FieldValueView,
)
    ensures
        has_field(a + b, name, v) <==> has_field(a, name, v) || has_field(b, name, v),
{
    if has_field(a + b, name, v) {
        let i = choose|i: int| 0 <= i < (a + b).len() && #[trigger] (a + b)[i] == (name, v);
        if i < a.len() {
            assert(a[i] == (a + b)[i]);
        } else {
            assert(b[i - a.len()] == (a + b)[i]);
        }
    }
    if has_field(a, name, v) {
        let i = choose|i: int| 0 <= i < a.len() && #[trigger] a[i] == (name, v);
        assert((a + b)[i] == a[i]);
    }
    if has_field(b, name, v) {
        let i = choose|i: int| 0 <= i < b.len() && #[trigger] b[i] == (name, v);
        assert((a + b)[i + a.len()] == b[i]);
    }
}

/// The fields of a short object, one by one.
pub proof fn lemma_has_field_small(fs: Seq<FieldView>, name: Seq<char>, v: FieldValueView)
    requires
        fs.len() <= 4,
    ensures
        has_field(fs, name, v) <==> (fs.len() > 0 && fs[0] == (name, v)) || (fs.len() > 1
            && fs[1] == (name, v)) || (fs.len() > 2 && fs[2] == (name, v)) || (fs.len() > 3
            && fs[3] == (name, v)),
{
    if has_field(fs, name, v) {
        let i = choose|i: int| 0 <= i < fs.len() && #[trigger] fs[i] == (name, v);
        assert(i == 0 || i == 1 || i == 2 || i == 3);
    }
}

/// An optional text field holds a given field exactly when the text is there
/// and the field is that text under that name.
pub proof fn lemma_has_field_opt(
    field: Seq<char>,
    o: Option<String>,
    name: Seq<char>,
    v: FieldValueView,
)
    ensures
        has_field(opt_text_field(field, o), name, v) <==> (name == field && o is Some && v
            == FieldValueView::Text(o->0@)),
{
    lemma_has_field_small(opt_text_field(field, o), name, v);
}

/// A field holding a text.
pub fn text_field(name: &str, value: &str) -> (r: Field)
    ensures
        r@ == (name@, FieldValueView::Text(value@)),
{
    Field { name: String::from_str(name), value: FieldValue::Text(String::from_str(value)) }
}

/// A field holding a number.
pub fn number_field(name: &str, value: u64) -> (r: Field)
    ensures
        r@ == (name@, FieldValueView::Number(value)),
{
    Field { name: String::from_str(name), value: FieldValue::Number(value) }
}

/// A field holding a list of numbers.
pub fn numbers_field(name: &str, value: Vec<u64>) -> (r: Field)
    ensures
        r@ == (name@, FieldValueView::Numbers(value@)),
{
    Field { name: String::from_str(name), value: FieldValue::Numbers(value) }
}

/// Appends a text field when the optional text is there.
pub fn push_opt_text(fields: &mut Vec<Field>, name: &str, value: &Option<String>)
    ensures
        fields_view(final(fields)@) == fields_view(old(fields)@) + opt_text_field(name@, *value),
{
    match value {
        Some(s) => {
            let f = text_field(name, s.as_str());
            fields.push(f);
            assert(fields_view(fields@) =~= fields_view(old(fields)@) + opt_text_field(
                name@,
                *value,
            ));
        },
        None => {
            assert(fields_view(fields@) =~= fields_view(old(fields)@) + opt_text_field(
                name@,
                *value,
            ));
        },
    }
}

} // verus!
