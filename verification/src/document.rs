//! A typed model of the JSON documents exchanged with the node, with a
//! verified serializer and field accessors.
//!
//! The embedding application decodes the node's raw replies into this type at
//! the transport boundary; everything the library decides about a reply is
//! then stated over this model.
use crate::text::{chars_of, dec_digits, push_chars, push_dec_u64, str_eq, string_of};
use vstd::prelude::*;

verus! {

/// A JSON-like document, as exchanged with the node.
///
/// Numbers are restricted to unsigned 64-bit integers: every numeric field
/// this protocol reads (monetary values, heights, scan ids, fees) is one.
pub enum JsonValue {
    Null,
    Bool(bool),
    Num(u64),
    Str(String),
    Arr(Vec<JsonValue>),
    Obj(Vec<(String, JsonValue)>),
}

/// The character for a single hexadecimal digit.
pub open spec fn hex_digit_char(d: nat) -> char {
    if d < 10 {
        (48 + d) as u8 as char
    } else {
        (87 + d) as u8 as char
    }
}

/// How one character appears inside a JSON string literal.
pub open spec fn escape_char(c: char) -> Seq<char> {
    if c == '"' {
        seq!['\\', '"']
    } else if c == '\\' {
        seq!['\\', '\\']
    } else if c == '\n' {
        seq!['\\', 'n']
    } else if c == '\r' {
        seq!['\\', 'r']
    } else if c == '\t' {
        seq!['\\', 't']
    } else if '\0' <= c && ' ' > c {
        seq!['\\', 'u', '0', '0', hex_digit_char(((c as u32) / 16) as nat), hex_digit_char(
            ((c as u32) % 16) as nat,
        )]
    } else {
        seq![c]
    }
}

/// How a whole string appears inside a JSON string literal, without the
/// surrounding quotes.
pub open spec fn escape_str(s: Seq<char>) -> Seq<char>
    decreases s,
{
    if s.len() == 0 {
        Seq::empty()
    } else {
        escape_str(s.drop_last()) + escape_char(s.last())
    }
}

/// A quoted JSON string literal.
pub open spec fn quoted(s: Seq<char>) -> Seq<char> {
    seq!['"'] + escape_str(s) + seq!['"']
}

/// The serialized text of a document.
pub open spec fn doc_text(v: JsonValue) -> Seq<char>
    decreases v,
{
    match v {
        JsonValue::Null => seq!['n', 'u', 'l', 'l'],
        JsonValue::Bool(b) => if b {
            seq!['t', 'r', 'u', 'e']
        } else {
            seq!['f', 'a', 'l', 's', 'e']
        },
        JsonValue::Num(n) => dec_digits(n as nat),
        JsonValue::Str(s) => quoted(s@),
        JsonValue::Arr(items) => seq!['['] + items_text(items@) + seq![']'],
        JsonValue::Obj(fields) => seq!['{'] + fields_text(fields@) + seq!['}'],
    }
}

/// The comma-separated serialized items of an array.
pub open spec fn items_text(s: Seq<JsonValue>) -> Seq<char>
    decreases s,
{
    if s.len() == 0 {
        Seq::empty()
    } else if s.len() == 1 {
        doc_text(s[0])
    } else {
        items_text(s.drop_last()) + seq![','] + doc_text(s.last())
    }
}

/// The comma-separated serialized fields of an object.
pub open spec fn fields_text(s: Seq<(String, JsonValue)>) -> Seq<char>
    decreases s,
{
    if s.len() == 0 {
        Seq::empty()
    } else if s.len() == 1 {
        field_text(s[0])
    } else {
        fields_text(s.drop_last()) + seq![','] + field_text(s.last())
    }
}

/// One serialized `"key":value` field.
pub open spec fn field_text(f: (String, JsonValue)) -> Seq<char>
    decreases f,
{
    quoted(f.0@) + seq![':'] + doc_text(f.1)
}

/// The text the node-facing display form uses: a string document appears
/// bare, everything else as its serialized text.
pub open spec fn display_text(v: JsonValue) -> Seq<char> {
    match v {
        JsonValue::Str(s) => s@,
        _ => doc_text(v),
    }
}

fn hex_digit_char_exec(d: u32) -> (c: char)
    requires
        d < 16,
    ensures
        c == hex_digit_char(d as nat),
{
    if d < 10 {
        (48 + d as u8) as char
    } else {
        (87 + d as u8) as char
    }
}

/// Append the escaped form of `s` to `out`.
fn push_escaped(out: &mut Vec<char>, s: &String)
    ensures
        final(out)@ == old(out)@ + escape_str(s@),
{
    let cs = chars_of(s.as_str());
    let mut i: usize = 0;
    while i < cs.len()
        invariant
            i <= cs.len(),
            cs@ == s@,
            out@ == old(out)@ + escape_str(s@.take(i as int)),
        decreases cs.len() - i,
    {
        let c = cs[i];
        proof {
            assert(s@.take(i + 1).drop_last() =~= s@.take(i as int));
            assert(s@.take(i + 1).last() == s@[i as int]);
        }
        if c == '"' {
            out.push('\\');
            out.push('"');
        } else if c == '\\' {
            out.push('\\');
            out.push('\\');
        } else if c == '\n' {
            out.push('\\');
            out.push('n');
        } else if c == '\r' {
            out.push('\\');
            out.push('r');
        } else if c == '\t' {
            out.push('\\');
            out.push('t');
        } else if '\0' <= c && ' ' > c {
            out.push('\\');
            out.push('u');
            out.push('0');
            out.push('0');
            out.push(hex_digit_char_exec((c as u32) / 16));
            out.push(hex_digit_char_exec((c as u32) % 16));
        } else {
            out.push(c);
        }
        i += 1;
        proof {
            assert(out@ == old(out)@ + escape_str(s@.take(i as int)));
        }
    }
    proof {
        assert(s@.take(cs@.len() as int) == s@);
    }
}

/// Append `"s"`, quoted and escaped, to `out`.
pub(crate) fn push_quoted(out: &mut Vec<char>, s: &String)
    ensures
        final(out)@ == old(out)@ + quoted(s@),
{
    out.push('"');
    push_escaped(out, s);
    out.push('"');
    proof {
        assert(out@ =~= old(out)@ + quoted(s@));
    }
}

/// Append the serialized text of `v` to `out`.
#[verifier::loop_isolation(false)]
pub(crate) fn push_doc(out: &mut Vec<char>, v: &JsonValue)
    ensures
        final(out)@ == old(out)@ + doc_text(*v),
    decreases *v,
{
    match v {
        JsonValue::Null => {
            push_chars(out, "null");
            proof {
                reveal_strlit("null");
                assert(out@ =~= old(out)@ + doc_text(*v));
            }
        },
        JsonValue::Bool(b) => {
            if *b {
                push_chars(out, "true");
                proof {
                    reveal_strlit("true");
                    assert(out@ =~= old(out)@ + doc_text(*v));
                }
            } else {
                push_chars(out, "false");
                proof {
                    reveal_strlit("false");
                    assert(out@ =~= old(out)@ + doc_text(*v));
                }
            }
        },
        JsonValue::Num(n) => {
            push_dec_u64(out, *n);
        },
        JsonValue::Str(s) => {
            push_quoted(out, s);
        },
        JsonValue::Arr(items) => {
            out.push('[');
            let mut i: usize = 0;
            while i < items.len()
                invariant
                    i <= items.len(),
                    out@ =~= old(out)@ + seq!['['] + items_text(items@.take(i as int)),
                decreases items.len() - i,
            {
                if i > 0 {
                    out.push(',');
                }
                proof {
                    assert(decreases_to!(*v => (*v)->Arr_0));
                    assert((*v)->Arr_0 == *items);
                    assert(decreases_to!(*items => items@));
                    assert(decreases_to!(items@ => items@[i as int]));
                }
                push_doc(out, &items[i]);
                i += 1;
                proof {
                    assert(items@.take(i as int).drop_last() =~= items@.take(i - 1));
                    assert(items@.take(i as int).last() == items@[i - 1]);
                    if i == 1 {
                        assert(items@.take(1)[0] == items@[0]);
                        assert(items_text(items@.take(i as int)) == doc_text(items@[0]));
                    }
                    assert(out@ =~= old(out)@ + seq!['['] + items_text(items@.take(i as int)));
                }
            }
            out.push(']');
            proof {
                assert(items@.take(items@.len() as int) == items@);
                assert(out@ =~= old(out)@ + doc_text(*v));
            }
        },
        JsonValue::Obj(fields) => {
            out.push('{');
            let mut i: usize = 0;
            while i < fields.len()
                invariant
                    i <= fields.len(),
                    out@ =~= old(out)@ + seq!['{'] + fields_text(fields@.take(i as int)),
                decreases fields.len() - i,
            {
                if i > 0 {
                    out.push(',');
                }
                push_quoted(out, &fields[i].0);
                out.push(':');
                proof {
                    assert(decreases_to!(*v => (*v)->Obj_0));
                    assert((*v)->Obj_0 == *fields);
                    assert(decreases_to!(*fields => fields@));
                    assert(decreases_to!(fields@ => fields@[i as int]));
                    assert(decreases_to!(fields@[i as int] => fields@[i as int].1));
                }
                push_doc(out, &fields[i].1);
                i += 1;
                proof {
                    assert(fields@.take(i as int).drop_last() =~= fields@.take(i - 1));
                    assert(fields@.take(i as int).last() == fields@[i - 1]);
                    assert(field_text(fields@[i - 1]) == quoted(fields@[i - 1].0@) + seq![':']
                        + doc_text(fields@[i - 1].1));
                    if i == 1 {
                        assert(fields@.take(1)[0] == fields@[0]);
                        assert(fields_text(fields@.take(i as int)) == field_text(fields@[0]));
                    }
                    assert(out@ =~= old(out)@ + seq!['{'] + fields_text(fields@.take(i as int)));
                }
            }
            out.push('}');
            proof {
                assert(fields@.take(fields@.len() as int) == fields@);
                assert(out@ =~= old(out)@ + doc_text(*v));
            }
        },
    }
}

impl JsonValue {
    /// Serialize this document to its JSON text.
    pub fn dump(&self) -> (r: String)
        ensures
            r@ == doc_text(*self),
    {
        let mut out: Vec<char> = Vec::new();
        push_doc(&mut out, self);
        string_of(&out)
    }

    /// The display form of this document: a string appears bare, everything
    /// else as its serialized text.
    pub fn display(&self) -> (r: String)
        ensures
            r@ == display_text(*self),
    {
        match self {
            JsonValue::Str(s) => s.clone(),
            _ => self.dump(),
        }
    }

    /// Whether this document is `null`.
    pub fn is_null(&self) -> (r: bool)
        ensures
            r == (*self is Null),
    {
        match self {
            JsonValue::Null => true,
            _ => false,
        }
    }

    /// The value of the field named `key`, when this document is an object
    /// holding one; `null` stands for an absent field, as it does in the
    /// node's own replies.
    #[verifier::loop_isolation(false)]
    pub fn field<'a>(&'a self, key: &str) -> (r: Option<&'a JsonValue>)
        ensures
            match r {
                Some(f) => *f == spec_field(*self, key@),
                None => spec_field(*self, key@) is Null,
            },
    {
        match self {
            JsonValue::Obj(fields) => {
                let ghost all = fields@;
                proof {
                    assert(all.skip(0) =~= all);
                }
                let mut i: usize = 0;
                while i < fields.len()
                    invariant
                        i <= fields.len(),
                        all == fields@,
                        spec_fields_lookup(all, key@) == spec_fields_lookup(
                            all.skip(i as int),
                            key@,
                        ),
                    decreases fields.len() - i,
                {
                    proof {
                        assert(all.skip(i as int)[0] == all[i as int]);
                        assert(all.skip(i as int).drop_first() =~= all.skip(i + 1));
                    }
                    if str_eq(fields[i].0.as_str(), key) {
                        proof {
                            assert(all.skip(i as int).len() > 0);
                            assert(all.skip(i as int)[0].0@ == key@);
                            assert(spec_fields_lookup(all.skip(i as int), key@)
                                == all[i as int].1);
                            assert(*self == JsonValue::Obj(*fields));
                            assert(spec_field(*self, key@) == spec_fields_lookup(all, key@));
                        }
                        return Some(&fields[i].1);
                    }
                    i += 1;
                }
                proof {
                    assert(all.skip(all.len() as int).len() == 0);
                }
                None
            },
            _ => None,
        }
    }

    /// The item at position `i`, when this document is an array long enough;
    /// `null` stands for everything else, as it does in the node's replies.
    pub fn item<'a>(&'a self, i: usize) -> (r: Option<&'a JsonValue>)
        ensures
            match r {
                Some(f) => *f == spec_item(*self, i as int),
                None => spec_item(*self, i as int) is Null,
            },
    {
        match self {
            JsonValue::Arr(items) => {
                if i < items.len() {
                    Some(&items[i])
                } else {
                    None
                }
            },
            _ => None,
        }
    }

}

/// The value of the field named `key` of `v`; `null` when `v` is not an
/// object or holds no such field.
pub open spec fn spec_field(v: JsonValue, key: Seq<char>) -> JsonValue {
    match v {
        JsonValue::Obj(fields) => spec_fields_lookup(fields@, key),
        _ => JsonValue::Null,
    }
}

/// The first field of `s` named `key`; `null` when there is none.
pub open spec fn spec_fields_lookup(s: Seq<(String, JsonValue)>, key: Seq<char>) -> JsonValue
    decreases s,
{
    if s.len() == 0 {
        JsonValue::Null
    } else if s[0].0@ == key {
        s[0].1
    } else {
        spec_fields_lookup(s.drop_first(), key)
    }
}

/// The item of `v` at position `i`; `null` when `v` is not an array that
/// long.
pub open spec fn spec_item(v: JsonValue, i: int) -> JsonValue {
    match v {
        JsonValue::Arr(items) => if 0 <= i < items@.len() {
            items@[i]
        } else {
            JsonValue::Null
        },
        _ => JsonValue::Null,
    }
}

} // verus!
