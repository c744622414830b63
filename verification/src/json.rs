//! JSON text of strings and of structured values.

use vstd::prelude::*;
use vstd::string::*;
use crate::value::{item_models, member_models, StructuredValue, ValueModel};

verus! {

/// The hexadecimal digit of a value below 16, in lower case.
pub open spec fn hex_digit(n: int) -> char {
    if n == 0 {
        '0'
    } else if n == 1 {
        '1'
    } else if n == 2 {
        '2'
    } else if n == 3 {
        '3'
    } else if n == 4 {
        '4'
    } else if n == 5 {
        '5'
    } else if n == 6 {
        '6'
    } else if n == 7 {
        '7'
    } else if n == 8 {
        '8'
    } else if n == 9 {
        '9'
    } else if n == 10 {
        'a'
    } else if n == 11 {
        'b'
    } else if n == 12 {
        'c'
    } else if n == 13 {
        'd'
    } else if n == 14 {
        'e'
    } else {
        'f'
    }
}

/// How one character stands inside a JSON string literal: the double quote
/// and the backslash behind a backslash; backspace, tab, line feed, form
/// feed and carriage return by their letters; every other character below
/// the space as `\u00` and two hexadecimal digits; every other as itself.
pub open spec fn escaped_char(c: char) -> Seq<char> {
    if c == '"' {
        seq!['\\', '"']
    } else if c == '\\' {
        seq!['\\', '\\']
    } else if c == '\u{8}' {
        seq!['\\', 'b']
    } else if c == '\t' {
        seq!['\\', 't']
    } else if c == '\n' {
        seq!['\\', 'n']
    } else if c == '\u{c}' {
        seq!['\\', 'f']
    } else if c == '\r' {
        seq!['\\', 'r']
    } else if (c as int) < 0x20 {
        seq!['\\', 'u', '0', '0', hex_digit((c as int) / 16), hex_digit((c as int) % 16)]
    } else {
        seq![c]
    }
}

/// The characters of a text, each as it stands inside a JSON string literal.
pub open spec fn escaped_text(s: Seq<char>) -> Seq<char>
    decreases s.len(),
{
    if s.len() == 0 {
        Seq::empty()
    } else {
        escaped_text(s.drop_last()) + escaped_char(s.last())
    }
}

/// The JSON string literal that stands for a sequence of characters: the
/// characters, escaped, between double quotes.
pub open spec fn json_string_text(s: Seq<char>) -> Seq<char> {
    seq!['"'] + escaped_text(s) + seq!['"']
}

/// The error of `serde_json`'s serializer, carried through as it is.
#[verifier::external_type_specification]
#[verifier::external_body]
pub struct ExSerializerError(serde_json::Error);

/// Calls `serde_json::to_string` on a string slice. The serializer writes
/// into a byte vector and fails only where a write fails, which a vector
/// never does: the call succeeds. Its output is the JSON string literal of
/// the slice: a double quote, the slice with the bytes of the serializer's
/// escape table replaced by their escapes and every other byte as it is,
/// and a double quote.
#[verifier::external_body]
fn quote(s: &str) -> (r: Result<String, serde_json::Error>)
    ensures
        r is Ok,
        r->Ok_0@ == json_string_text(s@),
{
    serde_json::to_string(s)
}

/// The JSON string literal of `s`.
pub fn json_string(s: &str) -> (r: String)
    ensures
        r@ == json_string_text(s@),
{
    match quote(s) {
        Ok(t) => t,
        Err(_) => unreached(),
    }
}

/// Texts joined by single commas.
pub open spec fn join_commas(texts: Seq<Seq<char>>) -> Seq<char>
    decreases texts.len(),
{
    if texts.len() == 0 {
        Seq::empty()
    } else if texts.len() == 1 {
        texts[0]
    } else {
        join_commas(texts.drop_last()) + ","@ + texts.last()
    }
}

/// Joining one more text appends a comma and the text, unless it is the first.
pub proof fn lemma_join_commas_push(texts: Seq<Seq<char>>, text: Seq<char>)
    ensures
        join_commas(texts.push(text)) == if texts.len() == 0 {
            text
        } else {
            join_commas(texts) + ","@ + text
        },
{
    let all = texts.push(text);
    assert(all.drop_last() =~= texts);
    assert(all.last() == text);
}

/// The JSON text of one member of a mapping: the key's string literal, a
/// colon, and the value's text.
pub open spec fn member_text(key: Seq<char>, value: Seq<char>) -> Seq<char> {
    json_string_text(key) + ":"@ + value
}

impl ValueModel {
    /// The compact JSON text of the value.
    pub open spec fn json_text(self) -> Seq<char>
        decreases self,
    {
        match self {
            ValueModel::Null => "null"@,
            ValueModel::Bool(b) => if b {
                "true"@
            } else {
                "false"@
            },
            ValueModel::Number(t) => t,
            ValueModel::String(s) => json_string_text(s),
            ValueModel::Sequence(items) => "["@ + join_commas(item_texts(items)) + "]"@,
            ValueModel::Mapping(members) => "{"@ + join_commas(member_texts(members)) + "}"@,
        }
    }
}

/// The JSON texts of the items of a sequence, in order.
pub open spec fn item_texts(items: Seq<ValueModel>) -> Seq<Seq<char>>
    decreases items,
{
    if items.len() == 0 {
        Seq::empty()
    } else {
        item_texts(items.drop_last()).push(items.last().json_text())
    }
}

/// The JSON texts of the members of a mapping, in order.
pub open spec fn member_texts(members: Seq<(Seq<char>, ValueModel)>) -> Seq<Seq<char>>
    decreases members,
{
    if members.len() == 0 {
        Seq::empty()
    } else {
        member_texts(members.drop_last()).push(
            member_text(members.last().0, members.last().1.json_text()),
        )
    }
}

/// The JSON texts of a sequence of structured values, joined by commas.
pub open spec fn items_text(items: Seq<StructuredValue>) -> Seq<char> {
    join_commas(item_texts(item_models(items)))
}

/// The JSON texts of a sequence of members, joined by commas.
pub open spec fn members_text(members: Seq<(String, StructuredValue)>) -> Seq<char> {
    join_commas(member_texts(member_models(members)))
}

/// The joined text of the first `n + 1` items is that of the first `n`, a
/// comma unless `n` is 0, and the text of item `n`.
pub proof fn lemma_items_text_step(items: Seq<StructuredValue>, n: int)
    requires
        0 <= n < items.len(),
    ensures
        items_text(items.take(n + 1)) == if n == 0 {
            items[n]@.json_text()
        } else {
            items_text(items.take(n)) + ","@ + items[n]@.json_text()
        },
{
    let upto = items.take(n + 1);
    assert(upto.drop_last() =~= items.take(n));
    assert(upto.last() == items[n]);
    let models = item_models(items.take(n));
    assert(item_models(upto) == models.push(items[n]@));
    assert(models.push(items[n]@).drop_last() =~= models);
    assert(item_texts(models.push(items[n]@)) == item_texts(models).push(items[n]@.json_text()));
    lemma_join_commas_push(item_texts(models), items[n]@.json_text());
    if n == 0 {
        assert(models.len() == 0);
    } else {
        crate::value::lemma_item_models(items.take(n));
        assert(item_texts(models).len() > 0);
    }
}

/// The joined text of the first `n + 1` members is that of the first `n`, a
/// comma unless `n` is 0, and the text of member `n`.
pub proof fn lemma_members_text_step(members: Seq<(String, StructuredValue)>, n: int)
    requires
        0 <= n < members.len(),
    ensures
        members_text(members.take(n + 1)) == if n == 0 {
            member_text(members[n].0@, members[n].1@.json_text())
        } else {
            members_text(members.take(n)) + ","@ + member_text(
                members[n].0@,
                members[n].1@.json_text(),
            )
        },
{
    let upto = members.take(n + 1);
    assert(upto.drop_last() =~= members.take(n));
    assert(upto.last() == members[n]);
    let models = member_models(members.take(n));
    let model = (members[n].0@, members[n].1@);
    let text = member_text(members[n].0@, members[n].1@.json_text());
    assert(member_models(upto) == models.push(model));
    assert(models.push(model).drop_last() =~= models);
    assert(member_texts(models.push(model)) == member_texts(models).push(text));
    lemma_join_commas_push(member_texts(models), text);
    if n == 0 {
        assert(models.len() == 0);
    } else {
        crate::value::lemma_member_models(members.take(n));
        assert(member_texts(models).len() > 0);
    }
}

impl StructuredValue {
    /// Encodes the value as compact JSON text.
    pub fn to_json(&self) -> (r: String)
        ensures
            r@ == self@.json_text(),
        decreases self,
    {
        match self {
            StructuredValue::Null => String::from_str("null"),
            StructuredValue::Bool(b) => if *b {
                String::from_str("true")
            } else {
                String::from_str("false")
            },
            StructuredValue::Number(n) => String::from_str(n.as_str()),
            StructuredValue::String(s) => json_string(s.as_str()),
            StructuredValue::Sequence(items) => {
                let inner = encode_items(items);
                let mut out = String::from_str("[");
                out.append(inner.as_str());
                out.append("]");
                out
            },
            StructuredValue::Mapping(members) => {
                let mut out = String::from_str("{");
                let mut i: usize = 0;
                proof {
                    assert(members@.take(0) =~= Seq::empty());
                }
                while i < members.len()
                    invariant
                        i <= members.len(),
                        *self == StructuredValue::Mapping(*members),
                        out@ == "{"@ + members_text(members@.take(i as int)),
                    decreases members.len() - i,
                {
                    proof {
                        vstd::std_specs::vec::axiom_vec_index_decreases(*members, i as int);
                        assert(*members == self->Mapping_0);
                    }
                    let key = json_string(members[i].0.as_str());
                    let text = members[i].1.to_json();
                    if i > 0 {
                        out.append(",");
                    }
                    out.append(key.as_str());
                    out.append(":");
                    out.append(text.as_str());
                    proof {
                        lemma_members_text_step(members@, i as int);
                        assert(out@ =~= "{"@ + members_text(members@.take(i + 1)));
                    }
                    i = i + 1;
                }
                out.append("}");
                assert(members@.take(i as int) =~= members@);
                out
            },
        }
    }
}

/// Encodes the items of a sequence as JSON texts joined by commas.
pub fn encode_items(items: &Vec<StructuredValue>) -> (r: String)
    ensures
        r@ == items_text(items@),
    decreases items,
{
    let mut out = String::new();
    let mut i: usize = 0;
    proof {
        assert(items@.take(0) =~= Seq::empty());
    }
    while i < items.len()
        invariant
            i <= items.len(),
            out@ == items_text(items@.take(i as int)),
        decreases items.len() - i,
    {
        proof {
            vstd::std_specs::vec::axiom_vec_index_decreases(*items, i as int);
        }
        let text = items[i].to_json();
        if i > 0 {
            out.append(",");
        }
        out.append(text.as_str());
        proof {
            lemma_items_text_step(items@, i as int);
            assert(out@ =~= items_text(items@.take(i + 1)));
        }
        i = i + 1;
    }
    assert(items@.take(i as int) =~= items@);
    out
}

} // verus!
