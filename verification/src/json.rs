//! The JSON values that configuration rows carry, as plain data.

use vstd::prelude::*;
use crate::text::same;

verus! {

/// A JSON number: an unsigned integer, or the text of any other number.
#[derive(Debug)]
pub enum JsonNumber {
    Unsigned(u64),
    Other(String),
}

/// A JSON value. An object lists its members in order; where a key stands
/// twice the first one counts.
#[derive(Debug)]
pub enum JsonValue {
    Null,
    Bool(bool),
    Number(JsonNumber),
    Text(String),
    Array(Vec<JsonValue>),
    Object(Vec<JsonMember>),
}

/// One member of a JSON object.
#[derive(Debug)]
pub struct JsonMember {
    pub key: String,
    pub value: JsonValue,
}

/// The value under `key`: that of the first member so named.
pub open spec fn member(members: Seq<JsonMember>, key: Seq<char>) -> Option<JsonValue>
    decreases members.len(),
{
    if members.len() == 0 {
        None
    } else if members[0].key@ == key {
        Some(members[0].value)
    } else {
        member(members.skip(1), key)
    }
}

fn find_member<'a>(members: &'a Vec<JsonMember>, key: &str) -> (r: Option<&'a JsonValue>)
    ensures
        r is Some == member(members@, key@) is Some,
        r matches Some(v) ==> member(members@, key@) == Some(*v),
{
    let mut i: usize = 0;
    assert(members@.skip(0) =~= members@);
    while i < members.len()
        invariant
            i <= members.len(),
            member(members@, key@) == member(members@.skip(i as int), key@),
        decreases members.len() - i,
    {
        if same(members[i].key.as_str(), key) {
            return Some(&members[i].value);
        }
        assert(members@.skip(i as int).skip(1) =~= members@.skip(i + 1));
        i += 1;
    }
    None
}

impl JsonValue {
    /// The value under `key`, where this is an object that has it.
    pub open spec fn field(self, key: Seq<char>) -> Option<JsonValue> {
        match self {
            JsonValue::Object(members) => member(members@, key),
            _ => None,
        }
    }

    /// The text, where this is one.
    pub open spec fn text(self) -> Option<Seq<char>> {
        match self {
            JsonValue::Text(s) => Some(s@),
            _ => None,
        }
    }

    /// The elements, where this is an array.
    pub open spec fn elements(self) -> Option<Seq<JsonValue>> {
        match self {
            JsonValue::Array(v) => Some(v@),
            _ => None,
        }
    }

    /// The text under `key`.
    pub open spec fn text_field(self, key: Seq<char>) -> Option<Seq<char>> {
        match self.field(key) {
            Some(v) => v.text(),
            None => None,
        }
    }

    /// The elements of the array under `key`; none where there is no array.
    pub open spec fn array_field(self, key: Seq<char>) -> Seq<JsonValue> {
        match self.field(key) {
            Some(v) => match v.elements() {
                Some(e) => e,
                None => Seq::empty(),
            },
            None => Seq::empty(),
        }
    }

    /// The flag under `key`, or `default` where there is none.
    pub open spec fn flag_field(self, key: Seq<char>, default: bool) -> bool {
        match self.field(key) {
            Some(JsonValue::Bool(b)) => b,
            _ => default,
        }
    }

    /// The unsigned integer under `key`.
    pub open spec fn unsigned_field(self, key: Seq<char>) -> Option<u64> {
        match self.field(key) {
            Some(JsonValue::Number(JsonNumber::Unsigned(n))) => Some(n),
            _ => None,
        }
    }

    /// Whether this is an object.
    pub fn is_object(&self) -> (r: bool)
        ensures
            r == (self is Object),
    {
        match self {
            JsonValue::Object(_) => true,
            _ => false,
        }
    }

    /// The value under `key`, where this is an object that has it.
    pub fn get(&self, key: &str) -> (r: Option<&JsonValue>)
        ensures
            r is Some == self.field(key@) is Some,
            r matches Some(v) ==> self.field(key@) == Some(*v),
    {
        match self {
            JsonValue::Object(members) => find_member(members, key),
            _ => None,
        }
    }

    /// The text, where this is one.
    pub fn as_str(&self) -> (r: Option<&str>)
        ensures
            r is Some == self.text() is Some,
            r matches Some(s) ==> self.text() == Some(s@),
    {
        match self {
            JsonValue::Text(s) => Some(s.as_str()),
            _ => None,
        }
    }

    /// The text under `key`.
    pub fn get_str(&self, key: &str) -> (r: Option<&str>)
        ensures
            r is Some == self.text_field(key@) is Some,
            r matches Some(s) ==> self.text_field(key@) == Some(s@),
    {
        match self.get(key) {
            Some(v) => v.as_str(),
            None => None,
        }
    }

    /// The elements, where this is an array.
    pub fn as_array(&self) -> (r: Option<&Vec<JsonValue>>)
        ensures
            r is Some == self.elements() is Some,
            r matches Some(v) ==> self.elements() == Some(v@),
    {
        match self {
            JsonValue::Array(v) => Some(v),
            _ => None,
        }
    }

    /// The array under `key`.
    pub fn get_array(&self, key: &str) -> (r: Option<&Vec<JsonValue>>)
        ensures
            r matches Some(v) ==> self.array_field(key@) == v@,
            r is None ==> self.array_field(key@) == Seq::<JsonValue>::empty(),
            r is Some == (self.field(key@) matches Some(v) && v is Array),
    {
        match self.get(key) {
            Some(v) => v.as_array(),
            None => None,
        }
    }

    /// The flag under `key`, or `default` where there is none.
    pub fn get_bool(&self, key: &str, default: bool) -> (r: bool)
        ensures
            r == self.flag_field(key@, default),
    {
        match self.get(key) {
            Some(JsonValue::Bool(b)) => *b,
            _ => default,
        }
    }

    /// The unsigned integer under `key`.
    pub fn get_u64(&self, key: &str) -> (r: Option<u64>)
        ensures
            r == self.unsigned_field(key@),
    {
        match self.get(key) {
            Some(JsonValue::Number(JsonNumber::Unsigned(n))) => Some(*n),
            _ => None,
        }
    }
}

/// An object with a text member, added where the object does not have the key
/// yet; any other value as it is.
pub open spec fn with_default(value: JsonValue, key: Seq<char>, text: Seq<char>, r: JsonValue) -> bool {
    match value {
        JsonValue::Object(members) => if member(members@, key) is Some {
            r == value
        } else {
            &&& r matches JsonValue::Object(after)
            &&& after@.len() == members@.len() + 1
            &&& after@.drop_last() == members@
            &&& after@.last().key@ == key
            &&& after@.last().value.text() == Some(text)
        },
        _ => r == value,
    }
}

/// Adds a text member to an object that does not have the key yet.
pub fn add_default(value: JsonValue, key: &str, text: &str) -> (r: JsonValue)
    ensures
        with_default(value, key@, text@, r),
{
    let known: bool = value.get(key).is_some();
    match value {
        JsonValue::Object(members) => {
            if known {
                return JsonValue::Object(members);
            }
            let mut after = members;
            after.push(
                JsonMember { key: key.to_owned(), value: JsonValue::Text(text.to_owned()) },
            );
            assert(after@.drop_last() =~= members@);
            JsonValue::Object(after)
        },
        other => other,
    }
}

/// What `serde_json` writes for the object `{key: value}` with a text value.
pub uninterp spec fn json_member_text(key: Seq<char>, value: Seq<char>) -> Seq<char>;

/// Calls `<serde_json::Value as Display>` (through `to_string`) on an object
/// with the one member `key`, whose value is the text `value`: the compact JSON
/// text of that object, a function of the two texts.
#[verifier::external_body]
pub(crate) fn json_member_to_text(key: &str, value: &str) -> (r: String)
    ensures
        r@ == json_member_text(key@, value@),
{
    let mut members = serde_json::Map::new();
    members.insert(key.to_owned(), serde_json::Value::String(value.to_owned()));
    serde_json::Value::Object(members).to_string()
}

/// A key's value is that of the first member that bears the key, whatever stands in
/// front of it or behind it; a key that no member bears has none.
pub proof fn the_first_member_counts(members: Seq<JsonMember>, key: Seq<char>, i: int)
    requires
        0 <= i <= members.len(),
        forall|j: int| 0 <= j < i ==> (#[trigger] members[j]).key@ != key,
        i < members.len() ==> members[i].key@ == key,
    ensures
        i < members.len() ==> member(members, key) == Some(members[i].value),
        i == members.len() ==> member(members, key) is None,
    decreases i,
{
    if i > 0 {
        assert(members[0].key@ != key);
        let rest = members.skip(1);
        assert forall|j: int| 0 <= j < i - 1 implies (#[trigger] rest[j]).key@ != key by {
            assert(rest[j] == members[j + 1]);
        }
        the_first_member_counts(rest, key, i - 1);
    }
}

/// What an object says under a key is read by its type: a text as that text, an array
/// as its elements, a flag as that flag, an unsigned integer as that integer; and what
/// is of another type counts as not said. Nothing but an object says anything.
pub proof fn fields_are_read_by_their_type(
    object: Vec<JsonMember>,
    key: Seq<char>,
    i: int,
    default: bool,
    other: JsonValue,
)
    requires
        0 <= i < object@.len(),
        object@[i].key@ == key,
        forall|j: int| 0 <= j < i ==> (#[trigger] object@[j]).key@ != key,
        !(other is Object),
    ensures
        JsonValue::Object(object).field(key) == Some(object@[i].value),
        JsonValue::Object(object).text_field(key) == (match object@[i].value {
            JsonValue::Text(s) => Some(s@),
            _ => None,
        }),
        JsonValue::Object(object).array_field(key) == (match object@[i].value {
            JsonValue::Array(v) => v@,
            _ => Seq::empty(),
        }),
        JsonValue::Object(object).flag_field(key, default) == (match object@[i].value {
            JsonValue::Bool(b) => b,
            _ => default,
        }),
        JsonValue::Object(object).unsigned_field(key) == (match object@[i].value {
            JsonValue::Number(JsonNumber::Unsigned(n)) => Some(n),
            _ => None,
        }),
        other.field(key) is None,
        other.text_field(key) is None,
        other.array_field(key).len() == 0,
        other.flag_field(key, default) == default,
        other.unsigned_field(key) is None,
{
    the_first_member_counts(object@, key, i);
}

/// A key that no member of an object bears says nothing.
pub proof fn missing_fields_say_nothing(object: Vec<JsonMember>, key: Seq<char>, default: bool)
    requires
        forall|j: int| 0 <= j < object@.len() ==> (#[trigger] object@[j]).key@ != key,
    ensures
        JsonValue::Object(object).field(key) is None,
        JsonValue::Object(object).text_field(key) is None,
        JsonValue::Object(object).array_field(key).len() == 0,
        JsonValue::Object(object).flag_field(key, default) == default,
        JsonValue::Object(object).unsigned_field(key) is None,
{
    the_first_member_counts(object@, key, object@.len() as int);
}

/// A default adds what is missing and changes nothing else: afterwards the object has
/// the key, with its own value where it had one, and every other key as before.
pub proof fn a_default_fills_only_a_gap(
    object: Vec<JsonMember>,
    key: Seq<char>,
    text: Seq<char>,
    r: JsonValue,
    other: Seq<char>,
)
    requires
        with_default(JsonValue::Object(object), key, text, r),
    ensures
        r is Object,
        member(object@, key) is Some ==> r.field(key) == member(object@, key),
        member(object@, key) is None ==> r.text_field(key) == Some(text),
        other != key ==> r.field(other) == member(object@, other),
{
    if member(object@, key) is None {
        if let JsonValue::Object(after) = r {
            assert(after@ =~= object@.push(after@.last()));
            lemma_member_in_front(object@, after@.last(), key);
            lemma_member_in_front(object@, after@.last(), other);
        }
    }
}

proof fn lemma_member_in_front(members: Seq<JsonMember>, last: JsonMember, key: Seq<char>)
    ensures
        member(members.push(last), key) == if member(members, key) is Some {
            member(members, key)
        } else if last.key@ == key {
            Some(last.value)
        } else {
            None
        },
    decreases members.len(),
{
    if members.len() == 0 {
        assert(members.push(last).skip(1) =~= Seq::<JsonMember>::empty());
        assert(member(members.push(last).skip(1), key) is None);
        assert(members.push(last)[0] == last);
    } else {
        assert(members.push(last)[0] == members[0]);
        lemma_member_in_front(members.skip(1), last, key);
        assert(members.push(last).skip(1) =~= members.skip(1).push(last));
    }
}

} // verus!
