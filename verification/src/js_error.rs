//! The fields of a struct that becomes an error object of a host: which
//! field is the message, and which fields are set as properties.

use crate::text::str_eq;
use vstd::prelude::*;
use vstd::string::*;

verus! {

/// What is said about the struct as a whole.
#[derive(Debug)]
pub struct ContainerAttrs {
    message_field: Option<String>,
}

impl ContainerAttrs {
    /// The name that was given for the field of the message, if one was.
    pub closed spec fn given(&self) -> Option<Seq<char>> {
        match self.message_field {
            Some(name) => Some(name@),
            None => None,
        }
    }

    pub fn new(message_field: Option<String>) -> (attrs: Self)
        ensures
            attrs.given() == match message_field {
                Some(name) => Some(name@),
                None => None::<Seq<char>>,
            },
    {
        Self { message_field }
    }

    /// The name of the field that holds the message: the name given, or
    /// `message`.
    pub fn message_field(&self) -> (name: String)
        ensures
            name@ == match self.given() {
                Some(given) => given,
                None => "message"@,
            },
    {
        match &self.message_field {
            Some(field) => field.clone(),
            None => String::from_str("message"),
        }
    }
}

impl Default for ContainerAttrs {
    fn default() -> (attrs: Self)
        ensures
            attrs.given() is None,
    {
        Self { message_field: None }
    }
}

/// What is known of one field of the struct.
#[derive(Debug)]
pub struct Field {
    /// The name of the field in the struct; none for a field of a tuple
    /// struct.
    pub rust_name: Option<String>,
    /// The name under which the field is serialised.
    pub js_name: String,
    /// Whether the field is left out when the struct is serialised or read.
    pub skipped: bool,
    /// Whether the field is a phantom.
    pub phantom: bool,
}

/// What a [`Field`] holds.
pub ghost struct FieldView {
    pub rust_name: Option<Seq<char>>,
    pub js_name: Seq<char>,
    pub skipped: bool,
    pub phantom: bool,
}

impl View for Field {
    type V = FieldView;

    open spec fn view(&self) -> FieldView {
        FieldView {
            rust_name: match self.rust_name {
                Some(name) => Some(name@),
                None => None,
            },
            js_name: self.js_name@,
            skipped: self.skipped,
            phantom: self.phantom,
        }
    }
}

/// Whether a field is set as a property of the error object: it has a
/// name, is neither skipped nor a phantom, and is not the message.
pub open spec fn is_property(field: FieldView, message_field: Seq<char>) -> bool {
    !field.skipped && !field.phantom && field.rust_name is Some && field.rust_name->0
        != message_field
}

/// The names of the properties among the first `n` fields, in the order of
/// the fields: for each the name in the struct and the name for the host.
pub open spec fn properties(fields: Seq<FieldView>, message_field: Seq<char>, n: int) -> Seq<
    (Seq<char>, Seq<char>),
>
    decreases n,
{
    if n <= 0 || n > fields.len() {
        Seq::empty()
    } else if is_property(fields[n - 1], message_field) {
        properties(fields, message_field, n - 1).push(
            (fields[n - 1].rust_name->0, fields[n - 1].js_name),
        )
    } else {
        properties(fields, message_field, n - 1)
    }
}

/// The names of a list of pairs of strings.
pub open spec fn name_pairs(pairs: Seq<(String, String)>) -> Seq<(Seq<char>, Seq<char>)> {
    pairs.map_values(|pair: (String, String)| (pair.0@, pair.1@))
}

/// The names of a field, if it has a name in the struct.
pub fn parse_field(field: &Field) -> (names: Option<(String, String)>)
    ensures
        match names {
            Some(pair) => field@.rust_name == Some(pair.0@) && pair.1@ == field@.js_name,
            None => field@.rust_name is None,
        },
{
    match &field.rust_name {
        Some(name) => Some((name.clone(), field.js_name.clone())),
        None => None,
    }
}

/// The fields that are set as properties of the error object, in the order
/// of the struct.
pub fn parse_fields(fields: &Vec<Field>, message_field: &str) -> (names: Vec<(String, String)>)
    ensures
        name_pairs(names@) == properties(
            fields@.map_values(|f: Field| f@),
            message_field@,
            fields@.len() as int,
        ),
{
    let ghost views = fields@.map_values(|f: Field| f@);
    let mut names: Vec<(String, String)> = Vec::new();
    let mut i: usize = 0;
    proof {
        assert(name_pairs(names@) =~= properties(views, message_field@, 0));
    }
    while i < fields.len()
        invariant
            i <= fields@.len(),
            views == fields@.map_values(|f: Field| f@),
            name_pairs(names@) == properties(views, message_field@, i as int),
        decreases fields@.len() - i,
    {
        let field = &fields[i];
        assert(views[i as int] == field@);
        if !field.skipped && !field.phantom {
            match parse_field(field) {
                Some((rust_name, js_name)) => {
                    if !str_eq(rust_name.as_str(), message_field) {
                        let ghost before = name_pairs(names@);
                        names.push((rust_name, js_name));
                        proof {
                            assert(name_pairs(names@) =~= before.push((rust_name@, js_name@)));
                        }
                    }
                },
                None => {},
            }
        }
        i += 1;
    }
    names
}

} // verus!
