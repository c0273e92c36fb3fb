//! Request bodies: JSON objects of the documented, present fields.
use vstd::prelude::*;
use vstd::string::StringExecFns;
use crate::signer::{decimal_text, hex_digit, u64_text};

verus! {

/// How one character is written inside a JSON string literal: quote and
/// backslash escaped, the short escapes for backspace, tab, line feed, form
/// feed and carriage return, `\u00xx` in lower-case hex for the other control
/// characters, and every other character as it is.
pub open spec fn escaped_char(c: char) -> Seq<char> {
    if c == '"' {
        seq!['\\', '"']
    } else if c == '\\' {
        seq!['\\', '\\']
    } else if c == '\x08' {
        seq!['\\', 'b']
    } else if c == '\t' {
        seq!['\\', 't']
    } else if c == '\n' {
        seq!['\\', 'n']
    } else if c == '\x0c' {
        seq!['\\', 'f']
    } else if c == '\r' {
        seq!['\\', 'r']
    } else if (c as u32) < 0x20 {
        seq!['\\', 'u', '0', '0', hex_digit((c as u32 / 16) as nat), hex_digit((c as u32 % 16) as nat)]
    } else {
        seq![c]
    }
}

/// The characters of `s`, each escaped.
pub open spec fn escaped(s: Seq<char>) -> Seq<char>
    decreases s.len(),
{
    if s.len() == 0 {
        Seq::empty()
    } else {
        escaped(s.drop_last()) + escaped_char(s.last())
    }
}

/// The JSON string literal that stands for `s`, quotes included.
pub open spec fn json_string_of(s: Seq<char>) -> Seq<char> {
    seq!['"'] + escaped(s) + seq!['"']
}

/// Relies on serde_json::to_string on a `str`: the string literal with the
/// escapes of its `ESCAPE` table. Writing into a `Vec` cannot fail, so its
/// error case does not occur.
#[verifier::external_body]
fn json_string(s: &str) -> (r: String)
    ensures
        r@ == json_string_of(s@),
{
    serde_json::to_string(s).unwrap_or_default()
}

/// An integer in decimal, with a minus sign when negative.
pub open spec fn int_text(n: int) -> Seq<char> {
    if n < 0 {
        "-"@ + decimal_text((-n) as nat)
    } else {
        decimal_text(n as nat)
    }
}

/// The decimal digits of `n`, after a minus sign when it is negative.
pub fn i64_text(n: i64) -> (r: String)
    ensures
        r@ == int_text(n as int),
{
    if n < 0 {
        let m = (0 - (n as i128)) as u64;
        let mut r = String::from_str("-");
        r.append(u64_text(m).as_str());
        r
    } else {
        u64_text(n as u64)
    }
}

/// The value of one field of a request body.
#[derive(Debug)]
pub enum Field {
    Null,
    Bool(bool),
    Int(i64),
    Text(String),
}

/// What a field holds, as plain values.
pub enum FieldValue {
    Null,
    Bool(bool),
    Int(int),
    Text(Seq<char>),
}

impl Field {
    pub open spec fn value(self) -> FieldValue {
        match self {
            Field::Null => FieldValue::Null,
            Field::Bool(b) => FieldValue::Bool(b),
            Field::Int(n) => FieldValue::Int(n as int),
            Field::Text(s) => FieldValue::Text(s@),
        }
    }
}

pub open spec fn value_text(v: FieldValue) -> Seq<char> {
    match v {
        FieldValue::Null => "null"@,
        FieldValue::Bool(b) => if b {
            "true"@
        } else {
            "false"@
        },
        FieldValue::Int(n) => int_text(n),
        FieldValue::Text(s) => json_string_of(s),
    }
}

pub open spec fn entry_text(e: (Seq<char>, FieldValue)) -> Seq<char> {
    json_string_of(e.0) + ":"@ + value_text(e.1)
}

/// The entries, in order, separated by commas.
pub open spec fn entries_text(es: Seq<(Seq<char>, FieldValue)>) -> Seq<char>
    decreases es.len(),
{
    if es.len() == 0 {
        Seq::empty()
    } else if es.len() == 1 {
        entry_text(es[0])
    } else {
        entries_text(es.drop_last()) + ","@ + entry_text(es.last())
    }
}

/// The JSON object with the given entries, in order, without white space.
pub open spec fn object_text(es: Seq<(Seq<char>, FieldValue)>) -> Seq<char> {
    "{"@ + entries_text(es) + "}"@
}

/// Writes a JSON object one entry at a time.
pub struct ObjectWriter {
    text: String,
    empty: bool,
    entries: Ghost<Seq<(Seq<char>, FieldValue)>>,
}

impl ObjectWriter {
    /// The entries written so far.
    pub closed spec fn entries(&self) -> Seq<(Seq<char>, FieldValue)> {
        self.entries@
    }

    pub closed spec fn wf(&self) -> bool {
        &&& self.text@ == "{"@ + entries_text(self.entries@)
        &&& self.empty == (self.entries@.len() == 0)
    }

    pub fn new() -> (r: ObjectWriter)
        ensures
            r.wf(),
            r.entries() == Seq::<(Seq<char>, FieldValue)>::empty(),
    {
        ObjectWriter { text: String::from_str("{"), empty: true, entries: Ghost(Seq::empty()) }
    }

    fn value_json(v: &Field) -> (r: String)
        ensures
            r@ == value_text(v.value()),
    {
        match v {
            Field::Null => String::from_str("null"),
            Field::Bool(b) => if *b {
                String::from_str("true")
            } else {
                String::from_str("false")
            },
            Field::Int(n) => i64_text(*n),
            Field::Text(s) => json_string(s.as_str()),
        }
    }

    /// Adds the entry `key: value` after the others.
    pub fn add(&mut self, key: &str, value: Field)
        requires
            old(self).wf(),
        ensures
            final(self).wf(),
            final(self).entries() == old(self).entries().push((key@, value.value())),
    {
        let ghost es = self.entries@;
        let ghost e = (key@, value.value());
        let k = json_string(key);
        let v = Self::value_json(&value);
        proof {
            self.entries = Ghost(es.push(e));
            assert(es.push(e).drop_last() =~= es);
        }
        let was_empty = self.empty;
        self.empty = false;
        if !was_empty {
            self.text.append(",");
        }
        self.text.append(k.as_str());
        self.text.append(":");
        self.text.append(v.as_str());
        proof {
            let es2 = es.push(e);
            assert(es2.drop_last() =~= es);
            assert(es2.last() == e);
            assert(entry_text(e) == k@ + ":"@ + v@);
            if es.len() == 0 {
                assert(es2.len() == 1);
                assert(entries_text(es2) == entry_text(es2[0]));
                assert(self.text@ =~= "{"@ + entries_text(es2));
            } else {
                assert(entries_text(es2) == entries_text(es) + ","@ + entry_text(e));
                assert(self.text@ =~= "{"@ + entries_text(es2));
            }
        }
    }

    /// The object, closed.
    pub fn finish(self) -> (r: String)
        requires
            self.wf(),
        ensures
            r@ == object_text(self.entries()),
    {
        self.text.concat("}")
    }
}

} // verus!
