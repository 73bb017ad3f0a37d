//! The text of a JSON value.

use vstd::prelude::*;

use crate::json::{Json, JsonView, field_models, lemma_array_model, lemma_object_model, models};
use crate::order::{named, ordered, put_in_order};
use crate::text::{decimal, digit_char, push_decimal};

verus! {

/// The character of a hexadecimal digit.
pub open spec fn hex_char(digit: nat) -> char {
    if digit < 10 {
        digit_char(digit)
    } else {
        (87 + digit) as char
    }
}

/// How a character is written inside a JSON string.
pub open spec fn escaped(c: char) -> Seq<char> {
    if c == '"' || c == '\\' {
        seq!['\\', c]
    } else if c == '\u{8}' {
        seq!['\\', 'b']
    } else if c == '\t' {
        seq!['\\', 't']
    } else if c == '\n' {
        seq!['\\', 'n']
    } else if c == '\u{c}' {
        seq!['\\', 'f']
    } else if c == '\r' {
        seq!['\\', 'r']
    } else if c as nat >= 32 {
        seq![c]
    } else {
        seq!['\\', 'u', '0', '0', hex_char(c as nat / 16), hex_char(c as nat % 16)]
    }
}

/// How a run of characters is written inside a JSON string.
pub open spec fn all_escaped(s: Seq<char>) -> Seq<char>
    decreases s.len(),
{
    if s.len() == 0 {
        s
    } else {
        all_escaped(s.drop_last()) + escaped(s.last())
    }
}

/// A string as JSON writes it.
pub open spec fn quoted(s: Seq<char>) -> Seq<char> {
    seq!['"'] + all_escaped(s) + seq!['"']
}

/// `Value::to_string` of serde_json, for a string. Claimed: the characters stand
/// between two quotation marks, each as it is but for the quotation mark, the
/// backslash and the control characters below the space, which are escaped.
#[verifier::external_body]
pub(crate) fn quote(s: &str) -> (text: String)
    ensures
        text@ == quoted(s@),
{
    serde_json::Value::from(s).to_string()
}

/// Texts one after the other, with commas between them.
pub open spec fn joined(texts: Seq<Seq<char>>) -> Seq<char>
    decreases texts.len(),
{
    if texts.len() == 0 {
        Seq::empty()
    } else if texts.len() == 1 {
        texts[0]
    } else {
        joined(texts.drop_last()) + seq![','] + texts.last()
    }
}

/// Names with their values, each as an object shows it.
pub open spec fn members(list: Seq<(Seq<char>, Seq<char>)>) -> Seq<Seq<char>> {
    Seq::new(list.len(), |i: int| quoted(list[i].0) + seq![':'] + list[i].1)
}

/// The text of a JSON value, without spaces. The fields of an object come in
/// the order of their names.
pub open spec fn json_text(json: JsonView) -> Seq<char>
    decreases json,
{
    match json {
        JsonView::Null => "null"@,
        JsonView::Bool(b) => if b {
            "true"@
        } else {
            "false"@
        },
        JsonView::Unsigned(n) => decimal(n as nat),
        JsonView::Signed(n) => if n < 0 {
            seq!['-'] + decimal((-n) as nat)
        } else {
            decimal(n as nat)
        },
        JsonView::Float(text) => text,
        JsonView::Text(s) => quoted(s),
        JsonView::Array(items) => seq!['['] + joined(json_texts(items)) + seq![']'],
        JsonView::Object(fields) => seq!['{'] + joined(members(ordered(field_texts(fields))))
            + seq!['}'],
    }
}

/// The texts of a list of values.
pub open spec fn json_texts(items: Seq<JsonView>) -> Seq<Seq<char>>
    decreases items,
{
    if items.len() == 0 {
        Seq::empty()
    } else {
        json_texts(items.drop_last()).push(json_text(items.last()))
    }
}

/// The names and the texts of a list of fields.
pub open spec fn field_texts(fields: Seq<(Seq<char>, JsonView)>) -> Seq<(Seq<char>, Seq<char>)>
    decreases fields,
{
    if fields.len() == 0 {
        Seq::empty()
    } else {
        field_texts(fields.drop_last()).push((fields.last().0, json_text(fields.last().1)))
    }
}

/// Appends one more text to texts that are joined.
fn push_joined(out: &mut String, first: bool, text: &str)
    ensures
        final(out)@ == if first {
            old(out)@ + text@
        } else {
            old(out)@ + seq![','] + text@
        },
{
    if !first {
        proof {
            reveal_strlit(",");
            assert(","@ == seq![',']);
        }
        out.append(",");
    }
    out.append(text);
}

fn object_text(list: &Vec<(String, String)>) -> (text: String)
    ensures
        text@ == seq!['{'] + joined(members(named(list@))) + seq!['}'],
{
    proof {
        reveal_strlit("{");
        reveal_strlit("}");
        reveal_strlit(":");
        assert("{"@ == seq!['{'] && "}"@ == seq!['}'] && ":"@ == seq![':']);
    }
    let ghost all = members(named(list@));
    let mut text = "{".to_owned();
    assert(text@ == seq!['{'] + joined(all.take(0)));
    for i in 0..list.len()
        invariant
            all == members(named(list@)),
            ":"@ == seq![':'],
            text@ == seq!['{'] + joined(all.take(i as int)),
    {
        let member = quote(list[i].0.as_str()).concat(":").concat(list[i].1.as_str());
        assert(member@ == all[i as int]);
        push_joined(&mut text, i == 0, member.as_str());
        assert(all.take(i + 1).drop_last() == all.take(i as int));
        assert(all.take(i + 1).last() == member@);
        assert(text@ == seq!['{'] + joined(all.take(i + 1)));
    }
    assert(all.take(all.len() as int) == all);
    text.append("}");
    text
}

impl Json {
    /// The text of the value, without spaces. The fields of an object come in
    /// the order of their names.
    pub fn to_text(&self) -> (text: String)
        ensures
            text@ == json_text(self@),
        decreases self,
    {
        match self {
            Json::Null => "null".to_owned(),
            Json::Bool(b) => if *b {
                "true".to_owned()
            } else {
                "false".to_owned()
            },
            Json::Unsigned(n) => {
                let mut text = String::new();
                push_decimal(&mut text, *n);
                assert(text@ == decimal(*n as nat));
                text
            },
            Json::Signed(n) => {
                let mut text = String::new();
                if *n < 0 {
                    proof {
                        reveal_strlit("-");
                        assert("-"@ == seq!['-']);
                    }
                    text.append("-");
                    push_decimal(&mut text, (-(*n + 1)) as u64 + 1);
                } else {
                    push_decimal(&mut text, *n as u64);
                }
                assert(text@ == json_text(self@));
                text
            },
            Json::Float(text) => text.clone(),
            Json::Text(s) => quote(s.as_str()),
            Json::Array(items) => {
                let ghost all = models(items@);
                proof {
                    reveal_strlit("[");
                    reveal_strlit("]");
                    assert("["@ == seq!['['] && "]"@ == seq![']']);
                    lemma_array_model(*items);
                }
                let mut text = "[".to_owned();
                assert(text@ == seq!['['] + joined(json_texts(all.take(0))));
                for i in 0..items.len()
                    invariant
                        all == models(items@),
                        json_texts(all.take(i as int)).len() == i,
                        text@ == seq!['['] + joined(json_texts(all.take(i as int))),
                        decreases_to!(self => items@),
                {
                    let item = items[i].to_text();
                    let ghost texts = json_texts(all.take(i as int));
                    push_joined(&mut text, i == 0, item.as_str());
                    assert(all.take(i + 1).drop_last() == all.take(i as int));
                    assert(json_texts(all.take(i + 1)) == texts.push(item@));
                    assert(texts.push(item@).drop_last() == texts);
                    assert(text@ == seq!['['] + joined(texts.push(item@)));
                }
                assert(all.take(all.len() as int) == all);
                text.append("]");
                text
            },
            Json::Object(fields) => {
                let ghost all = field_models(fields@);
                proof {
                    lemma_object_model(*fields);
                }
                let mut list: Vec<(String, String)> = Vec::new();
                assert(named(list@) == ordered(field_texts(all.take(0))));
                for i in 0..fields.len()
                    invariant
                        all == field_models(fields@),
                        named(list@) == ordered(field_texts(all.take(i as int))),
                        decreases_to!(self => fields@),
                {
                    let text = fields[i].value.to_text();
                    let ghost texts = field_texts(all.take(i as int));
                    assert(all.take(i + 1).drop_last() == all.take(i as int));
                    assert(field_texts(all.take(i + 1)) == texts.push(
                        (fields@[i as int].name@, text@),
                    ));
                    assert(texts.push((fields@[i as int].name@, text@)).drop_last() == texts);
                    put_in_order(&mut list, fields[i].name.as_str(), text);
                }
                assert(all.take(all.len() as int) == all);
                object_text(&list)
            },
        }
    }
}

}
