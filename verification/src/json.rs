//! JSON documents: what is read out of replies and probe reports, and what goes into request
//! bodies.

use vstd::prelude::*;

use crate::text;

verus! {

/// A JSON value.
#[derive(Debug)]
pub enum Json {
    Null,
    Bool(bool),
    /// A number as it was read: its value where it is a non-negative integer, and its text.
    Number { unsigned: Option<u64>, text: String },
    /// A number that is written: the bits of an IEEE 754 double.
    Double(u64),
    Text(String),
    Array(Vec<Json>),
    /// The members of an object.
    Object(Vec<(String, Json)>),
}

/// What a JSON value says.
pub enum JsonTree {
    Null,
    Bool(bool),
    Number { unsigned: Option<u64>, text: Seq<char> },
    Double(u64),
    Text(Seq<char>),
    Array(Seq<JsonTree>),
    Object(Seq<(Seq<char>, JsonTree)>),
}

impl Json {
    /// What the value says.
    pub open spec fn tree(self) -> JsonTree
        decreases self,
    {
        match self {
            Json::Null => JsonTree::Null,
            Json::Bool(b) => JsonTree::Bool(b),
            Json::Number { unsigned, text } => JsonTree::Number { unsigned, text: text@ },
            Json::Double(bits) => JsonTree::Double(bits),
            Json::Text(t) => JsonTree::Text(t@),
            Json::Array(items) => JsonTree::Array(
                Seq::new(
                    items@.len(),
                    |i: int|
                        if 0 <= i < items@.len() {
                            items@[i].tree()
                        } else {
                            JsonTree::Null
                        },
                ),
            ),
            Json::Object(members) => JsonTree::Object(
                Seq::new(
                    members@.len(),
                    |i: int|
                        if 0 <= i < members@.len() {
                            (members@[i].0@, members@[i].1.tree())
                        } else {
                            (Seq::empty(), JsonTree::Null)
                        },
                ),
            ),
        }
    }
}

impl View for Json {
    type V = JsonTree;

    open spec fn view(&self) -> JsonTree {
        self.tree()
    }
}

/// The value of the first member called `name`.
pub open spec fn member(members: Seq<(Seq<char>, JsonTree)>, name: Seq<char>) -> Option<JsonTree>
    decreases members.len(),
{
    if members.len() == 0 {
        None
    } else if members.first().0 == name {
        Some(members.first().1)
    } else {
        member(members.drop_first(), name)
    }
}

/// The first member of a name is what the name finds.
pub proof fn lemma_member_at(members: Seq<(Seq<char>, JsonTree)>, i: int)
    requires
        0 <= i < members.len(),
        forall|k: int| 0 <= k < i ==> (#[trigger] members[k]).0 != members[i].0,
    ensures
        member(members, members[i].0) == Some(members[i].1),
    decreases i,
{
    if i > 0 {
        let rest = members.drop_first();
        assert(members[0].0 != members[i].0);
        assert forall|k: int| 0 <= k < i - 1 implies (#[trigger] rest[k]).0 != rest[i - 1].0 by {
            assert(rest[k] == members[k + 1]);
        }
        lemma_member_at(rest, i - 1);
    }
}

/// A name that no member has finds nothing.
pub proof fn lemma_member_absent(members: Seq<(Seq<char>, JsonTree)>, name: Seq<char>)
    requires
        forall|k: int| 0 <= k < members.len() ==> (#[trigger] members[k]).0 != name,
    ensures
        member(members, name) is None,
    decreases members.len(),
{
    if members.len() > 0 {
        let rest = members.drop_first();
        assert(members[0].0 != name);
        assert forall|k: int| 0 <= k < rest.len() implies (#[trigger] rest[k]).0 != name by {
            assert(rest[k] == members[k + 1]);
        }
        lemma_member_absent(rest, name);
    }
}

impl JsonTree {
    /// The member called `name`, where this is an object that has one.
    pub open spec fn field(self, name: Seq<char>) -> Option<JsonTree> {
        match self {
            JsonTree::Object(members) => member(members, name),
            _ => None,
        }
    }

    /// The text, where this is a string.
    pub open spec fn as_text(self) -> Option<Seq<char>> {
        match self {
            JsonTree::Text(t) => Some(t),
            _ => None,
        }
    }

    /// The truth value, where this is one.
    pub open spec fn as_bool(self) -> Option<bool> {
        match self {
            JsonTree::Bool(b) => Some(b),
            _ => None,
        }
    }

    /// The number, where this is a non-negative integer.
    pub open spec fn as_u64(self) -> Option<u64> {
        match self {
            JsonTree::Number { unsigned, .. } => unsigned,
            _ => None,
        }
    }

    /// The elements, where this is an array.
    pub open spec fn as_array(self) -> Option<Seq<JsonTree>> {
        match self {
            JsonTree::Array(items) => Some(items),
            _ => None,
        }
    }

    /// The text of the member called `name`.
    pub open spec fn text_field(self, name: Seq<char>) -> Option<Seq<char>> {
        match self.field(name) {
            Some(v) => v.as_text(),
            None => None,
        }
    }
}

impl Json {
    /// The member called `name`, where this is an object that has one.
    pub fn get(&self, name: &str) -> (r: Option<&Json>)
        ensures
            match r {
                Some(v) => self@.field(name@) == Some(v@),
                None => self@.field(name@) is None,
            },
    {
        match self {
            Json::Object(members) => {
                let ghost all = self@->Object_0;
                assert(all.skip(0) == all);
                for i in 0..members.len()
                    invariant
                        self@ == JsonTree::Object(all),
                        all.len() == members@.len(),
                        forall|k: int|
                            0 <= k < all.len() ==> #[trigger] all[k] == (
                                members@[k].0@,
                                members@[k].1@,
                            ),
                        member(all, name@) == member(all.skip(i as int), name@),
                {
                    let ghost rest = all.skip(i as int);
                    assert(rest.first() == all[i as int]);
                    assert(rest.drop_first() == all.skip(i + 1));
                    if text::same_text(members[i].0.as_str(), name) {
                        return Some(&members[i].1);
                    }
                }
                None
            },
            _ => None,
        }
    }

    /// The text, where this is a string.
    pub fn as_str(&self) -> (r: Option<&str>)
        ensures
            match r {
                Some(t) => self@.as_text() == Some(t@),
                None => self@.as_text() is None,
            },
    {
        match self {
            Json::Text(t) => Some(t.as_str()),
            _ => None,
        }
    }

    /// The truth value, where this is one.
    pub fn as_bool(&self) -> (r: Option<bool>)
        ensures
            r == self@.as_bool(),
    {
        match self {
            Json::Bool(b) => Some(*b),
            _ => None,
        }
    }

    /// The number, where this is a non-negative integer.
    pub fn as_u64(&self) -> (r: Option<u64>)
        ensures
            r == self@.as_u64(),
    {
        match self {
            Json::Number { unsigned, .. } => *unsigned,
            _ => None,
        }
    }

    /// The elements, where this is an array.
    pub fn as_array(&self) -> (r: Option<&Vec<Json>>)
        ensures
            match r {
                Some(items) => {
                    &&& self@.as_array() matches Some(all)
                    &&& all.len() == items@.len()
                    &&& forall|i: int| 0 <= i < all.len() ==> #[trigger] all[i] == items@[i]@
                },
                None => self@.as_array() is None,
            },
    {
        match self {
            Json::Array(items) => Some(items),
            _ => None,
        }
    }

    /// The text of the member called `name`.
    pub fn text_at(&self, name: &str) -> (r: Option<&str>)
        ensures
            match r {
                Some(t) => self@.text_field(name@) == Some(t@),
                None => self@.text_field(name@) is None,
            },
    {
        match self.get(name) {
            Some(v) => v.as_str(),
            None => None,
        }
    }
}

// ---------------------------------------------------------------------------
// Building
// ---------------------------------------------------------------------------

/// What the members of an object say.
pub open spec fn members_of(members: Seq<(String, Json)>) -> Seq<(Seq<char>, JsonTree)> {
    Seq::new(members.len(), |i: int| (members[i].0@, members[i].1@))
}

/// `members` with one more at the end.
pub fn with_member(members: Vec<(String, Json)>, name: &str, value: Json) -> (r: Vec<
    (String, Json),
>)
    ensures
        members_of(r@) == members_of(members@).push((name@, value@)),
{
    let mut out = members;
    out.push((name.to_owned(), value));
    assert(members_of(out@) == members_of(members@).push((name@, value@)));
    out
}

impl Json {
    /// A string.
    pub fn text(s: &str) -> (r: Json)
        ensures
            r@ == JsonTree::Text(s@),
    {
        Json::Text(s.to_owned())
    }

    /// An object with these members.
    pub fn object(members: Vec<(String, Json)>) -> (r: Json)
        ensures
            r@ == JsonTree::Object(members_of(members@)),
    {
        let ghost said = members_of(members@);
        let r = Json::Object(members);
        assert(r@->Object_0 == said);
        r
    }
}

// ---------------------------------------------------------------------------
// Parsing
// ---------------------------------------------------------------------------

/// `serde_json::Value`, a parsed document.
#[verifier::external_type_specification]
#[verifier::external_body]
pub struct ExValue(serde_json::Value);

/// What a parsed document holds.
pub uninterp spec fn json_contents(v: serde_json::Value) -> JsonTree;

/// What `serde_json::from_slice` reads in bytes: the document, or what is wrong with it.
pub uninterp spec fn json_in_bytes(bytes: Seq<u8>) -> Result<JsonTree, Seq<char>>;

/// What `serde_json::from_str` reads in a text, where it is a document.
pub uninterp spec fn json_in_text(s: Seq<char>) -> Option<JsonTree>;

/// `serde_json::from_slice` into a `serde_json::Value`; the error is kept as its text.
#[verifier::external_body]
fn decode_bytes(bytes: &[u8]) -> (r: Result<serde_json::Value, String>)
    ensures
        match r {
            Ok(v) => json_in_bytes(bytes@) == Ok::<JsonTree, Seq<char>>(json_contents(v)),
            Err(e) => json_in_bytes(bytes@) == Err::<JsonTree, Seq<char>>(e@),
        },
{
    match serde_json::from_slice(bytes) {
        Ok(v) => Ok(v),
        Err(e) => Err(e.to_string()),
    }
}

/// `serde_json::from_str` into a `serde_json::Value`; the error is dropped.
#[verifier::external_body]
fn decode_text(s: &str) -> (r: Option<serde_json::Value>)
    ensures
        match r {
            Some(v) => json_in_text(s@) == Some(json_contents(v)),
            None => json_in_text(s@) is None,
        },
{
    serde_json::from_str(s).ok()
}

/// The contents of a `serde_json::Value`, variant for variant: `Number::as_u64` tells whether a
/// number is a non-negative integer of 64 bits, and `Map` hands its members out one by one.
#[verifier::external_body]
fn from_value(v: serde_json::Value) -> (r: Json)
    ensures
        r@ == json_contents(v),
{
    match v {
        serde_json::Value::Null => Json::Null,
        serde_json::Value::Bool(b) => Json::Bool(b),
        serde_json::Value::Number(n) => Json::Number { unsigned: n.as_u64(), text: n.to_string() },
        serde_json::Value::String(s) => Json::Text(s),
        serde_json::Value::Array(a) => Json::Array(a.into_iter().map(from_value).collect()),
        serde_json::Value::Object(m) => Json::Object(
            m.into_iter().map(|(k, x)| (k, from_value(x))).collect(),
        ),
    }
}

/// Parses a JSON document given as bytes.
pub fn parse_bytes(bytes: &[u8]) -> (r: Result<Json, String>)
    ensures
        match r {
            Ok(j) => json_in_bytes(bytes@) == Ok::<JsonTree, Seq<char>>(j@),
            Err(e) => json_in_bytes(bytes@) == Err::<JsonTree, Seq<char>>(e@),
        },
{
    match decode_bytes(bytes) {
        Ok(v) => Ok(from_value(v)),
        Err(e) => Err(e),
    }
}

/// Parses a JSON document given as text.
pub fn parse_text(s: &str) -> (r: Option<Json>)
    ensures
        match r {
            Some(j) => json_in_text(s@) == Some(j@),
            None => json_in_text(s@) is None,
        },
{
    match decode_text(s) {
        Some(v) => Some(from_value(v)),
        None => None,
    }
}

// ---------------------------------------------------------------------------
// Laws
// ---------------------------------------------------------------------------

/// A value is read as what it is and as nothing else: a string as text, a truth value as one, a
/// non-negative integer as a number, an array as its elements; and only an object has members.
pub proof fn law_values_are_read_as_what_they_are(v: JsonTree, name: Seq<char>)
    ensures
        forall|t: Seq<char>| v.as_text() == Some(t) <==> v == JsonTree::Text(t),
        forall|b: bool| v.as_bool() == Some(b) <==> v == JsonTree::Bool(b),
        forall|n: u64|
            v.as_u64() == Some(n) <==> (v matches JsonTree::Number { unsigned, .. } && unsigned
                == Some(n)),
        forall|items: Seq<JsonTree>| v.as_array() == Some(items) <==> v == JsonTree::Array(items),
        forall|t: Seq<char>|
            v.text_field(name) == Some(t) <==> v.field(name) == Some(JsonTree::Text(t)),
        v.field(name) is Some ==> v is Object,
{
}

/// A name finds the first member that has it, whatever stands in front of it under other names and
/// behind it; a name that no member has finds nothing.
pub proof fn law_names_find_the_first_member(
    before: Seq<(Seq<char>, JsonTree)>,
    name: Seq<char>,
    value: JsonTree,
    after: Seq<(Seq<char>, JsonTree)>,
)
    requires
        forall|k: int| 0 <= k < before.len() ==> (#[trigger] before[k]).0 != name,
    ensures
        JsonTree::Object(before.push((name, value)) + after).field(name) == Some(value),
        JsonTree::Object(before).field(name) is None,
{
    let all = before.push((name, value)) + after;
    assert forall|k: int| 0 <= k < before.len() implies (#[trigger] all[k]).0 != all[
        before.len() as int
    ].0 by {
        assert(all[k] == before[k]);
    }
    lemma_member_at(all, before.len() as int);
    lemma_member_absent(before, name);
}

} // verus!
