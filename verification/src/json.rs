//! JSON values as plain data. Reading text and writing it is left to
//! `serde_json`; what the relay reads out of a value is decided here.

use vstd::prelude::*;
use vstd::string::StringExecFns;

verus! {

#[verifier::external_type_specification]
#[verifier::external_body]
pub struct ExJsonValue(serde_json::Value);

/// A JSON value. A number that fits is `Unsigned`, a negative integer that
/// fits is `Signed`, any other number is kept as its text. Where an object
/// holds a name twice, the later member counts.
#[derive(Debug, PartialEq, Eq)]
pub enum Json {
    Null,
    Bool(bool),
    Unsigned(u64),
    Signed(i64),
    Decimal(String),
    String(String),
    Array(Vec<Json>),
    Object(Vec<(String, Json)>),
}

/// The value that a text stands for: what `serde_json::from_slice` reads, or
/// `None` where it refuses the text.
pub uninterp spec fn json_value(text: Seq<u8>) -> Option<Json>;

/// The text of a value: what `serde_json` writes for it in its compact form.
pub uninterp spec fn json_text(value: Json) -> Seq<char>;

/// Turns a `serde_json::Value` into a [`Json`], variant by variant. A number
/// is told apart by `Number::as_u64` and `Number::as_i64`.
#[verifier::external_body]
fn from_outside(value: &serde_json::Value) -> Json {
    match value {
        serde_json::Value::Null => Json::Null,
        serde_json::Value::Bool(b) => Json::Bool(*b),
        serde_json::Value::Number(n) => match (n.as_u64(), n.as_i64()) {
            (Some(u), _) => Json::Unsigned(u),
            (_, Some(i)) => Json::Signed(i),
            _ => Json::Decimal(n.to_string()),
        },
        serde_json::Value::String(s) => Json::String(s.clone()),
        serde_json::Value::Array(a) => Json::Array(a.iter().map(from_outside).collect()),
        serde_json::Value::Object(o) => Json::Object(
            o.iter().map(|(k, v)| (k.clone(), from_outside(v))).collect(),
        ),
    }
}

/// Turns a [`Json`] into a `serde_json::Value`, variant by variant. A number
/// kept as text is read by `serde_json::Number::from_str`.
#[verifier::external_body]
fn to_outside(value: &Json) -> serde_json::Value {
    match value {
        Json::Null => serde_json::Value::Null,
        Json::Bool(b) => serde_json::Value::Bool(*b),
        Json::Unsigned(u) => serde_json::Value::from(*u),
        Json::Signed(i) => serde_json::Value::from(*i),
        Json::Decimal(t) => t.parse().map_or(serde_json::Value::Null, serde_json::Value::Number),
        Json::String(s) => serde_json::Value::String(s.clone()),
        Json::Array(a) => serde_json::Value::Array(a.iter().map(to_outside).collect()),
        Json::Object(o) => serde_json::Value::Object(
            o.iter().map(|(k, v)| (k.clone(), to_outside(v))).collect(),
        ),
    }
}

/// Calls `serde_json::from_slice`. Trusted: the result depends on the text
/// alone.
#[verifier::external_body]
fn read_text(text: &[u8]) -> (r: Option<Json>)
    ensures
        r == json_value(text@),
{
    serde_json::from_slice::<serde_json::Value>(text).ok().map(|v| from_outside(&v))
}

/// Calls `to_string` of `serde_json::Value`. Trusted: the result depends on
/// the value alone.
#[verifier::external_body]
fn write_text(value: &Json) -> (r: String)
    ensures
        r@ == json_text(*value),
{
    to_outside(value).to_string()
}

/// The value of the last member with a name among the members of an object.
pub open spec fn last_with_name(members: Seq<(String, Json)>, name: Seq<char>) -> Option<Json>
    decreases members.len(),
{
    if members.len() == 0 {
        None
    } else if members.last().0@ == name {
        Some(members.last().1)
    } else {
        last_with_name(members.drop_last(), name)
    }
}

impl Json {
    /// The member of an object with a name; `None` for a value that is no
    /// object or has no such member.
    pub open spec fn field(self, name: Seq<char>) -> Option<Json> {
        match self {
            Json::Object(members) => last_with_name(members@, name),
            _ => None,
        }
    }

    /// The text of a JSON string; `None` for any other value.
    pub open spec fn text(self) -> Option<Seq<char>> {
        match self {
            Json::String(s) => Some(s@),
            _ => None,
        }
    }

    /// The number of a JSON number that is an integer from 0 to 2^64 - 1;
    /// `None` for any other value.
    pub open spec fn unsigned(self) -> Option<u64> {
        match self {
            Json::Unsigned(u) => Some(u),
            _ => None,
        }
    }

    /// The items of a JSON array; `None` for any other value.
    pub open spec fn items(self) -> Option<Seq<Json>> {
        match self {
            Json::Array(items) => Some(items@),
            _ => None,
        }
    }

    /// Reads a text.
    pub fn parse(text: &[u8]) -> (r: Option<Json>)
        ensures
            r == json_value(text@),
    {
        read_text(text)
    }

    /// Writes the value as text in compact form.
    pub fn to_text(&self) -> (r: String)
        ensures
            r@ == json_text(*self),
    {
        write_text(self)
    }

    /// The member of an object with a name.
    pub fn get(&self, name: &str) -> (r: Option<&Json>)
        ensures
            r is Some <==> self.field(name@) is Some,
            r is Some ==> *r->0 == self.field(name@)->0,
    {
        match self {
            Json::Object(members) => {
                let wanted = String::from_str(name);
                let mut i: usize = members.len();
                assert(members@.subrange(0, i as int) =~= members@);
                while i > 0
                    invariant
                        i <= members.len(),
                        wanted@ == name@,
                        self.field(name@) == last_with_name(
                            members@.subrange(0, i as int),
                            name@,
                        ),
                    decreases i,
                {
                    let ghost prefix = members@.subrange(0, i as int);
                    assert(prefix.last() == members@[i - 1]);
                    assert(prefix.drop_last() =~= members@.subrange(0, i - 1));
                    if members[i - 1].0 == wanted {
                        return Some(&members[i - 1].1);
                    }
                    i = i - 1;
                }
                assert(members@.subrange(0, 0).len() == 0);
                None
            },
            _ => None,
        }
    }

    /// Takes the member with a name out of an object.
    pub fn take(self, name: &str) -> (r: Option<Json>)
        ensures
            r == self.field(name@),
    {
        match self {
            Json::Object(members) => {
                let mut rest = members;
                let wanted = String::from_str(name);
                while rest.len() > 0
                    invariant
                        wanted@ == name@,
                        self.field(name@) == last_with_name(rest@, name@),
                    decreases rest.len(),
                {
                    let ghost before = rest@;
                    match rest.pop() {
                        Some((key, value)) => {
                            assert(before.last() == (key, value));
                            assert(before.drop_last() =~= rest@);
                            if key == wanted {
                                return Some(value);
                            }
                        },
                        None => {},
                    }
                }
                None
            },
            _ => None,
        }
    }

    /// The text of a JSON string.
    pub fn as_str(&self) -> (r: Option<&str>)
        ensures
            r is Some <==> self.text() is Some,
            r is Some ==> r->0@ == self.text()->0,
    {
        match self {
            Json::String(s) => Some(s.as_str()),
            _ => None,
        }
    }

    /// The number of a JSON number that is an integer from 0 to 2^64 - 1.
    pub fn as_u64(&self) -> (r: Option<u64>)
        ensures
            r == self.unsigned(),
    {
        match self {
            Json::Unsigned(u) => Some(*u),
            _ => None,
        }
    }

    /// The items of a JSON array.
    pub fn as_array(&self) -> (r: Option<&Vec<Json>>)
        ensures
            r is Some <==> self.items() is Some,
            r is Some ==> r->0@ == self.items()->0,
    {
        match self {
            Json::Array(items) => Some(items),
            _ => None,
        }
    }
}

} // verus!
