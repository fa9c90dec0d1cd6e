//! Reading a tool's input from its JSON text.

use vstd::prelude::*;

use crate::types::{Field, FieldValue, ToolInput, ToolInputView};

verus! {

/// What `serde_json` reads from a text: nothing where the text is no JSON.
pub uninterp spec fn json_input(text: Seq<char>) -> Option<ToolInput<Seq<char>, Seq<Field<Seq<char>>>>>;

/// Parses a text with `serde_json::from_str`. An object comes out by its
/// fields, in the order in which `serde_json::Map` walks them; strings come
/// out as what they hold, and every other value as its compact JSON. What is
/// read depends on the text alone; which value a given text gives is not
/// stated here.
#[verifier::external_body]
pub(crate) fn parse_json(text: &str) -> (r: Option<ToolInput>)
    ensures
        opt_input(r) == json_input(text@),
{
    match serde_json::from_str::<serde_json::Value>(text).ok()? {
        serde_json::Value::Object(m) => Some(ToolInput::Object(m.into_iter().map(|(key, v)| match v {
            serde_json::Value::String(s) => Field { key, value: FieldValue::Text(s) },
            other => Field { key, value: FieldValue::Other(other.to_string()) },
        }).collect())),
        serde_json::Value::String(s) => Some(ToolInput::Text(s)),
        other => Some(ToolInput::Other(other.to_string())),
    }
}

pub open spec fn opt_input(o: Option<ToolInput>) -> Option<ToolInputView> {
    match o {
        Some(i) => Some(i@),
        None => None,
    }
}

/// The input of a tool call given as JSON; nothing where the text is no JSON.
pub fn parse_tool_input(text: &str) -> (r: Option<ToolInput>)
    ensures
        opt_input(r) == json_input(text@),
{
    parse_json(text)
}

/// An input without fields.
pub open spec fn no_input() -> ToolInputView {
    ToolInput::Object(Seq::empty())
}

/// The input, or an empty object where there was none.
pub fn input_or_empty(parsed: Option<ToolInput>) -> (r: ToolInput)
    ensures
        r@ == (match opt_input(parsed) {
            Some(i) => i,
            None => no_input(),
        }),
{
    match parsed {
        Some(i) => i,
        None => {
            let fields: Vec<Field> = Vec::new();
            let r = ToolInput::Object(fields);
            assert(crate::types::fields_view(fields@) =~= Seq::<Field<Seq<char>>>::empty());
            r
        },
    }
}

} // verus!
