//! A JSON value as the command templates read it, and its plain-text rendering.

use serde_json::Value;
use vstd::prelude::*;

verus! {

/// serde_json's JSON value, carried through opaquely: request bodies as parsed.
#[verifier::external_type_specification]
#[verifier::external_body]
pub struct ExValue(serde_json::Value);

/// A JSON value. Numbers are kept in the textual form that their source gave them.
#[derive(Debug)]
pub enum JsonValue {
    Null,
    Bool(bool),
    Number(String),
    Str(String),
    Array(Vec<JsonValue>),
    /// Members in the order of the source document.
    Object(Vec<(String, JsonValue)>),
}

/// The parts joined with one newline between each two.
pub open spec fn join_lines(parts: Seq<Seq<char>>) -> Seq<char>
    decreases parts.len(),
{
    if parts.len() == 0 {
        Seq::empty()
    } else if parts.len() == 1 {
        parts[0]
    } else {
        join_lines(parts.drop_last()) + seq!['\n'] + parts.last()
    }
}

/// The text of a value: null is empty, a boolean or number is its literal text,
/// a string is itself, an array is its elements' texts one per line, and an
/// object is one `key = value` line per member.
pub open spec fn render(v: JsonValue) -> Seq<char>
    decreases v,
{
    match v {
        JsonValue::Null => Seq::empty(),
        JsonValue::Bool(b) => if b { "true"@ } else { "false"@ },
        JsonValue::Number(n) => n@,
        JsonValue::Str(s) => s@,
        JsonValue::Array(items) => join_lines(render_items(items@)),
        JsonValue::Object(members) => join_lines(render_members(members@)),
    }
}

pub open spec fn render_items(items: Seq<JsonValue>) -> Seq<Seq<char>>
    decreases items,
{
    if items.len() == 0 {
        Seq::empty()
    } else {
        render_items(items.drop_last()).push(render(items.last()))
    }
}

pub open spec fn render_member(key: Seq<char>, value: Seq<char>) -> Seq<char> {
    key + " = "@ + value
}

pub open spec fn render_members(members: Seq<(String, JsonValue)>) -> Seq<Seq<char>>
    decreases members,
{
    if members.len() == 0 {
        Seq::empty()
    } else {
        render_members(members.drop_last()).push(
            render_member(members.last().0@, render(members.last().1)),
        )
    }
}

proof fn lemma_join_step(parts: Seq<Seq<char>>, i: int)
    requires
        0 < i < parts.len(),
    ensures
        join_lines(parts.take(i + 1)) == join_lines(parts.take(i)) + seq!['\n'] + parts[i],
{
    assert(parts.take(i + 1).drop_last() =~= parts.take(i));
}

/// Appends `part` to `out`, preceded by a newline unless it is the first line.
fn append_line(out: &mut String, part: &str, first: bool)
    ensures
        first ==> final(out)@ == old(out)@ + part@,
        !first ==> final(out)@ == old(out)@ + seq!['\n'] + part@,
{
    if !first {
        out.append("\n");
        proof {
            reveal_strlit("\n");
        }
    }
    out.append(part);
}

/// Renders a value as plain text: the text that `render` gives.
pub fn json_to_string(value: &JsonValue) -> (r: String)
    ensures
        r@ == render(*value),
    decreases value,
{
    match value {
        JsonValue::Null => String::new(),
        JsonValue::Bool(b) => if *b {
            String::from_str("true")
        } else {
            String::from_str("false")
        },
        JsonValue::Number(n) => n.clone(),
        JsonValue::Str(s) => s.clone(),
        JsonValue::Array(items) => {
            proof {
                let ghost v = *value;
                assert(decreases_to!(v => v->Array_0));
            }
            lines_to_string(items)
        },
        JsonValue::Object(members) => {
            let ghost parts = render_members(members@);
            proof {
                lemma_render_members_len(members@);
            }
            let mut out = String::new();
            let mut i: usize = 0;
            while i < members.len()
                invariant
                    i <= members.len(),
                    parts == render_members(members@),
                    *value == JsonValue::Object(*members),
                    parts.len() == members.len(),
                    out@ == join_lines(parts.take(i as int)),
                decreases members.len() - i,
            {
                proof {
                    lemma_render_members_index(members@, i as int);
                    let ghost v = *value;
                    assert(decreases_to!(v => v->Object_0@));
                    assert(decreases_to!(v->Object_0@ => v->Object_0@[i as int]));
                    assert(decreases_to!(members@[i as int] => members@[i as int].1));
                    assert(decreases_to!(v => members@[i as int].1));
                }
                let text = json_to_string(&members[i].1);
                let mut line = members[i].0.clone();
                line.append(" = ");
                line.append(text.as_str());
                proof {
                    reveal_strlit(" = ");
                    if i > 0 {
                        lemma_join_step(parts, i as int);
                    } else {
                        assert(parts.take(1) =~= seq![parts[0]]);
                    }
                }
                append_line(&mut out, line.as_str(), i == 0);
                i = i + 1;
            }
            assert(parts.take(members.len() as int) =~= parts);
            out
        },
    }
}

proof fn lemma_render_items_index(items: Seq<JsonValue>, i: int)
    requires
        0 <= i < items.len(),
    ensures
        render_items(items).len() == items.len(),
        render_items(items)[i] == render(items[i]),
    decreases items.len(),
{
    if i < items.len() - 1 {
        lemma_render_items_index(items.drop_last(), i);
    } else {
        lemma_render_items_len(items.drop_last());
    }
}

proof fn lemma_render_items_len(items: Seq<JsonValue>)
    ensures
        render_items(items).len() == items.len(),
    decreases items.len(),
{
    if items.len() > 0 {
        lemma_render_items_len(items.drop_last());
    }
}

proof fn lemma_render_members_index(members: Seq<(String, JsonValue)>, i: int)
    requires
        0 <= i < members.len(),
    ensures
        render_members(members).len() == members.len(),
        render_members(members)[i] == render_member(members[i].0@, render(members[i].1)),
    decreases members.len(),
{
    if i < members.len() - 1 {
        lemma_render_members_index(members.drop_last(), i);
    } else {
        lemma_render_members_len(members.drop_last());
    }
}

proof fn lemma_render_members_len(members: Seq<(String, JsonValue)>)
    ensures
        render_members(members).len() == members.len(),
    decreases members.len(),
{
    if members.len() > 0 {
        lemma_render_members_len(members.drop_last());
    }
}

/// Renders each value and joins the texts with newlines.
pub fn lines_to_string(items: &Vec<JsonValue>) -> (r: String)
    ensures
        r@ == join_lines(render_items(items@)),
    decreases items,
{
    let ghost parts = render_items(items@);
    proof {
        lemma_render_items_len(items@);
    }
    let mut out = String::new();
    let mut i: usize = 0;
    while i < items.len()
        invariant
            i <= items.len(),
            parts == render_items(items@),
            parts.len() == items.len(),
            out@ == join_lines(parts.take(i as int)),
        decreases items.len() - i,
    {
        proof {
            lemma_render_items_index(items@, i as int);
            vstd::std_specs::vec::axiom_vec_index_decreases(*items, i as int);
        }
        let text = json_to_string(&items[i]);
        proof {
            if i > 0 {
                lemma_join_step(parts, i as int);
            } else {
                assert(parts.take(1) =~= seq![parts[0]]);
            }
        }
        append_line(&mut out, text.as_str(), i == 0);
        i = i + 1;
    }
    assert(parts.take(items.len() as int) =~= parts);
    out
}

/// Moves each variant of serde_json's `Value` into the matching variant of
/// `JsonValue`: a number as its `Display` text, object members in the map's
/// order. Used only inside the wrappers below.
#[verifier::external_body]
pub(crate) fn json_of(v: &Value) -> JsonValue {
    match v {
        Value::Null => JsonValue::Null,
        Value::Bool(b) => JsonValue::Bool(*b),
        Value::Number(n) => JsonValue::Number(n.to_string()),
        Value::String(s) => JsonValue::Str(s.clone()),
        Value::Array(a) => JsonValue::Array(a.iter().map(json_of).collect()),
        Value::Object(o) => JsonValue::Object(o.iter().map(|(k, x)| (k.clone(), json_of(x))).collect()),
    }
}

/// Moves each variant of `JsonValue` into the matching variant of serde_json's
/// `Value`; a number's text goes through serde_json's number parser, and text
/// that is no JSON number becomes null. Used only inside the wrappers below.
#[verifier::external_body]
pub(crate) fn value_of(v: &JsonValue) -> Value {
    match v {
        JsonValue::Null => Value::Null,
        JsonValue::Bool(b) => Value::Bool(*b),
        JsonValue::Number(n) => n.parse::<serde_json::Number>().map(Value::Number).unwrap_or(Value::Null),
        JsonValue::Str(s) => Value::String(s.clone()),
        JsonValue::Array(a) => Value::Array(a.iter().map(value_of).collect()),
        JsonValue::Object(o) => Value::Object(o.iter().map(|(k, x)| (k.clone(), value_of(x))).collect()),
    }
}

/// The value that JSON text parses to, or `None` where it is no JSON.
pub uninterp spec fn parsed_json(text: Seq<char>) -> Option<JsonValue>;

/// Relies on serde_json::from_str: the parse depends on the text alone.
#[verifier::external_body]
fn parse_json(text: &str) -> (r: Option<JsonValue>)
    ensures
        r == parsed_json(text@),
{
    serde_json::from_str::<Value>(text).ok().map(|v| json_of(&v))
}

/// A request body as JSON: malformed JSON gives null, so that the templates'
/// placeholders come out empty instead of failing the run.
pub fn body_json(text: &str) -> (r: JsonValue)
    ensures
        r == match parsed_json(text@) {
            Some(v) => v,
            None => JsonValue::Null,
        },
{
    match parse_json(text) {
        Some(v) => v,
        None => JsonValue::Null,
    }
}

} // verus!
