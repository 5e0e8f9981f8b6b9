use serde_json::Value;
use vstd::prelude::*;

verus! {

/// The kind of a JSON document's top-level value.
#[derive(Clone, Copy, Debug, PartialEq, Eq, Structural)]
pub enum JsonKind {
    Null,
    Bool,
    Number,
    String,
    Array,
    Object,
}

/// What parsing the text `s` as JSON yields: the kind of its top-level value and, for an
/// object, each member's key with the member's value written back as JSON text.
pub uninterp spec fn parsed_json(s: Seq<char>) -> Option<(JsonKind, Seq<(String, String)>)>;

/// Relies on `serde_json::from_str` into a `serde_json::Value` and on `Value`'s `Display`,
/// which writes a value back as compact JSON text; nothing but an object has members.
#[verifier::external_body]
pub(crate) fn parse_json(s: &str) -> (r: Option<(JsonKind, Vec<(String, String)>)>)
    ensures
        match r {
            Some(p) => parsed_json(s@) == Some((p.0, p.1@)),
            None => parsed_json(s@) is None,
        },
        r matches Some(p) ==> (p.0 != JsonKind::Object ==> p.1@.len() == 0),
{
    let v: Value = serde_json::from_str(s).ok()?;
    Some(match v {
        Value::Null => (JsonKind::Null, Vec::new()),
        Value::Bool(_) => (JsonKind::Bool, Vec::new()),
        Value::Number(_) => (JsonKind::Number, Vec::new()),
        Value::String(_) => (JsonKind::String, Vec::new()),
        Value::Array(_) => (JsonKind::Array, Vec::new()),
        Value::Object(m) => (JsonKind::Object, m.iter().map(|(k, v)| (k.clone(), v.to_string())).collect()),
    })
}

/// The kind of the JSON text `s`, when it parses.
pub open spec fn json_kind_of(s: Seq<char>) -> Option<JsonKind> {
    match parsed_json(s) {
        Some(p) => Some(p.0),
        None => None,
    }
}

/// The value text of the first member of `members` named `key`.
pub open spec fn member_of(members: Seq<(String, String)>, key: Seq<char>) -> Option<String>
    decreases members.len(),
{
    if members.len() == 0 {
        None
    } else if members[0].0@ == key {
        Some(members[0].1)
    } else {
        member_of(members.drop_first(), key)
    }
}

/// The value text of member `key` of the JSON object `s`; `None` when `s` is not an object
/// or has no such member.
pub open spec fn json_member(s: Seq<char>, key: Seq<char>) -> Option<String> {
    match parsed_json(s) {
        Some(p) => if p.0 == JsonKind::Object {
            member_of(p.1, key)
        } else {
            None
        },
        None => None,
    }
}

/// Whether two strings hold the same characters.
pub(crate) fn str_eq(a: &str, b: &str) -> (r: bool)
    ensures
        r == (a@ == b@),
{
    let n = a.unicode_len();
    if n != b.unicode_len() {
        return false;
    }
    let mut i: usize = 0;
    while i < n
        invariant
            n == a@.len(),
            n == b@.len(),
            0 <= i <= n,
            forall|j: int| 0 <= j < i ==> a@[j] == b@[j],
        decreases n - i,
    {
        if a.get_char(i) != b.get_char(i) {
            return false;
        }
        i = i + 1;
    }
    assert(a@ =~= b@);
    true
}

/// The value text of the first member named `key`.
pub fn find_member(members: &Vec<(String, String)>, key: &str) -> (r: Option<String>)
    ensures
        r == member_of(members@, key@),
{
    let mut i: usize = 0;
    assert(members@.subrange(0, members@.len() as int) =~= members@);
    while i < members.len()
        invariant
            0 <= i <= members@.len(),
            member_of(members@, key@) == member_of(members@.subrange(i as int, members@.len() as int), key@),
        decreases members@.len() - i,
    {
        let ghost rest = members@.subrange(i as int, members@.len() as int);
        proof {
            assert(rest.drop_first() =~= members@.subrange(i + 1, members@.len() as int));
        }
        if str_eq(members[i].0.as_str(), key) {
            return Some(members[i].1.clone());
        }
        i = i + 1;
    }
    None
}

/// The kind of the JSON text `s`, when it parses.
pub fn json_kind(s: &str) -> (r: Option<JsonKind>)
    ensures
        r == json_kind_of(s@),
{
    match parse_json(s) {
        Some(p) => Some(p.0),
        None => None,
    }
}

/// The value text of member `key` of the JSON object `s`.
pub fn json_member_text(s: &str, key: &str) -> (r: Option<String>)
    ensures
        r == json_member(s@, key@),
{
    match parse_json(s) {
        Some(p) => {
            if p.0 == JsonKind::Object {
                find_member(&p.1, key)
            } else {
                None
            }
        },
        None => None,
    }
}

} // verus!
