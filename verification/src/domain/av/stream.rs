//! The description of one stream of a media file, as the prober reports it:
//! a JSON object whose members are strings, numbers, booleans or null.

use crate::text::{decimal, decimal_string};
use vstd::prelude::*;
use vstd::string::*;

verus! {

/// What a member of a stream description holds.
#[derive(Debug, Clone)]
pub enum StreamValue {
    Null,
    Bool(bool),
    Number(u64),
    Text(String),
}

/// One named member of a stream description.
#[derive(Debug, Clone)]
pub struct Member {
    pub name: String,
    pub value: StreamValue,
}

/// The description of one stream. Where a name occurs more than once, the
/// first member of that name counts.
#[derive(Debug, Clone)]
pub struct StreamData {
    pub members: Vec<Member>,
}

/// The text that `serde_json` writes for the JSON string `s`: quoted and
/// escaped.
pub uninterp spec fn json_quoted(s: Seq<char>) -> Seq<char>;

/// The value of the first member called `name`.
pub open spec fn member_of(members: Seq<Member>, name: Seq<char>) -> Option<StreamValue>
    decreases members.len(),
{
    if members.len() == 0 {
        None
    } else if members[0].name@ == name {
        Some(members[0].value)
    } else {
        member_of(members.drop_first(), name)
    }
}

/// The string that `value` holds, if it holds one.
pub open spec fn text_of(value: Option<StreamValue>) -> Option<Seq<char>> {
    match value {
        Some(StreamValue::Text(s)) => Some(s@),
        _ => None,
    }
}

/// The number that `value` holds, zero where it holds none.
pub open spec fn number_or_zero(value: StreamValue) -> u64 {
    match value {
        StreamValue::Number(n) => n,
        _ => 0,
    }
}

/// `value` written as compact JSON.
pub open spec fn rendered(value: StreamValue) -> Seq<char> {
    match value {
        StreamValue::Null => "null"@,
        StreamValue::Bool(b) => if b {
            "true"@
        } else {
            "false"@
        },
        StreamValue::Number(n) => decimal(n as nat),
        StreamValue::Text(s) => json_quoted(s@),
    }
}

/// Writes the JSON string `s` with `to_string` of `serde_json::Value`.
/// The contract names the result.
#[verifier::external_body]
fn quote(s: &str) -> (text: String)
    ensures
        text@ == json_quoted(s@),
{
    serde_json::Value::String(s.to_string()).to_string()
}

/// `value` written as compact JSON.
pub fn render(value: &StreamValue) -> (text: String)
    ensures
        text@ == rendered(*value),
{
    match value {
        StreamValue::Null => String::from_str("null"),
        StreamValue::Bool(b) => if *b {
            String::from_str("true")
        } else {
            String::from_str("false")
        },
        StreamValue::Number(n) => decimal_string(*n),
        StreamValue::Text(s) => quote(s.as_str()),
    }
}

impl StreamData {
    /// The value of the member called `name`, if there is one.
    pub fn get(&self, name: &str) -> (value: Option<&StreamValue>)
        ensures
            value is Some == member_of(self.members@, name@) is Some,
            value is Some ==> *value->Some_0 == member_of(self.members@, name@)->Some_0,
    {
        let wanted = String::from_str(name);
        let n: usize = self.members.len();
        let mut i: usize = 0;
        assert(self.members@.skip(0) =~= self.members@);
        while i < n
            invariant
                n == self.members@.len(),
                i <= n,
                wanted@ == name@,
                member_of(self.members@, name@) == member_of(self.members@.skip(i as int), name@),
            decreases n - i,
        {
            if self.members[i].name == wanted {
                return Some(&self.members[i].value);
            }
            assert(self.members@.skip(i as int).drop_first() =~= self.members@.skip(i + 1));
            i = i + 1;
        }
        None
    }

    /// Whether the member called `name` is the string `text`.
    pub fn is_text(&self, name: &str, text: &str) -> (yes: bool)
        ensures
            yes == (text_of(member_of(self.members@, name@)) == Some(text@)),
    {
        match self.get(name) {
            Some(StreamValue::Text(s)) => {
                let wanted = String::from_str(text);
                *s == wanted
            },
            _ => false,
        }
    }
}

} // verus!
