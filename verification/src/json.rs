//! The JSON document model that the command envelopes, key filters and
//! audit details are read from, with its abstract view.
use vstd::prelude::*;
use serde_json::Value as SerdeValue;

verus! {

/// A JSON number, kept in the shape the JSON reader produces.
#[derive(Debug)]
pub enum JsonNumber {
    PosInt(u64),
    NegInt(i64),
    /// A number with a fraction or exponent, kept as its printed text.
    Float(String),
}

/// A JSON document tree. Object members keep the order the reader yields.
#[derive(Debug)]
pub enum JsonValue {
    Null,
    Bool(bool),
    Number(JsonNumber),
    Str(String),
    Array(Vec<JsonValue>),
    Object(Vec<(String, JsonValue)>),
}

/// Abstract view of a JSON number.
pub ghost enum JNum {
    PosInt(nat),
    NegInt(int),
    Float(Seq<char>),
}

/// Abstract view of a JSON document.
pub ghost enum JValue {
    Null,
    Bool(bool),
    Number(JNum),
    Str(Seq<char>),
    Array(Seq<JValue>),
    Object(Seq<(Seq<char>, JValue)>),
}

impl JsonNumber {
    pub open spec fn view(&self) -> JNum {
        match self {
            JsonNumber::PosInt(n) => JNum::PosInt(*n as nat),
            JsonNumber::NegInt(n) => JNum::NegInt(*n as int),
            JsonNumber::Float(t) => JNum::Float(t@),
        }
    }
}

impl JsonValue {
    pub open spec fn view(&self) -> JValue
        decreases self,
    {
        match self {
            JsonValue::Null => JValue::Null,
            JsonValue::Bool(b) => JValue::Bool(*b),
            JsonValue::Number(n) => JValue::Number(n.view()),
            JsonValue::Str(s) => JValue::Str(s@),
            JsonValue::Array(items) => JValue::Array(view_items(items@)),
            JsonValue::Object(members) => JValue::Object(view_members(members@)),
        }
    }
}

pub open spec fn view_items(s: Seq<JsonValue>) -> Seq<JValue>
    decreases s,
{
    if s.len() == 0 {
        Seq::empty()
    } else {
        view_items(s.drop_last()).push(s.last().view())
    }
}

pub open spec fn view_members(s: Seq<(String, JsonValue)>) -> Seq<(Seq<char>, JValue)>
    decreases s,
{
    if s.len() == 0 {
        Seq::empty()
    } else {
        view_members(s.drop_last()).push((s.last().0@, s.last().1.view()))
    }
}


pub proof fn lemma_view_items(s: Seq<JsonValue>)
    ensures
        view_items(s).len() == s.len(),
        forall|i: int| 0 <= i < s.len() ==> #[trigger] view_items(s)[i] == s[i]@,
    decreases s.len(),
{
    if s.len() > 0 {
        lemma_view_items(s.drop_last());
    }
}

pub proof fn lemma_view_members(s: Seq<(String, JsonValue)>)
    ensures
        view_members(s).len() == s.len(),
        forall|i: int|
            0 <= i < s.len() ==> #[trigger] view_members(s)[i] == (s[i].0@, s[i].1@),
    decreases s.len(),
{
    if s.len() > 0 {
        lemma_view_members(s.drop_last());
    }
}

/// The value of the first member named `key`.
pub open spec fn member_get(members: Seq<(Seq<char>, JValue)>, key: Seq<char>) -> Option<JValue>
    decreases members.len(),
{
    if members.len() == 0 {
        None
    } else if members[0].0 == key {
        Some(members[0].1)
    } else {
        member_get(members.drop_first(), key)
    }
}

/// Whether some member is named `key`.
pub open spec fn member_has(members: Seq<(Seq<char>, JValue)>, key: Seq<char>) -> bool {
    exists|i: int| 0 <= i < members.len() && members[i].0 == key
}

pub proof fn lemma_member_get(members: Seq<(Seq<char>, JValue)>, key: Seq<char>)
    ensures
        member_get(members, key) is Some <==> member_has(members, key),
        member_get(members, key) matches Some(v) ==> exists|i: int|
            0 <= i < members.len() && members[i].0 == key && members[i].1 == v && forall|j: int|
                0 <= j < i ==> members[j].0 != key,
    decreases members.len(),
{
    if members.len() > 0 {
        let rest = members.drop_first();
        lemma_member_get(rest, key);
        if members[0].0 != key {
            if member_has(members, key) {
                let i = choose|i: int| 0 <= i < members.len() && members[i].0 == key;
                assert(rest[i - 1].0 == key);
            }
            if member_has(rest, key) {
                let i = choose|i: int| 0 <= i < rest.len() && rest[i].0 == key;
                assert(members[i + 1].0 == key);
            }
            if let Some(v) = member_get(rest, key) {
                let i = choose|i: int|
                    0 <= i < rest.len() && rest[i].0 == key && rest[i].1 == v && forall|j: int|
                        0 <= j < i ==> rest[j].0 != key;
                assert(members[i + 1] == rest[i]);
                assert forall|j: int| 0 <= j < i + 1 implies members[j].0 != key by {
                    if j > 0 {
                        assert(members[j] == rest[j - 1]);
                    }
                }
            }
        } else {
            assert(members[0].0 == key);
        }
    }
}

/// The index of the first member named `key`, if any.
pub fn find_member(members: &Vec<(String, JsonValue)>, key: &str) -> (r: Option<usize>)
    ensures
        r matches Some(i) ==> i < members.len() && members@[i as int].0@ == key@
            && member_get(view_members(members@), key@) == Some(members@[i as int].1@),
        r is None ==> member_get(view_members(members@), key@) is None,
{
    proof {
        lemma_view_members(members@);
        lemma_member_get(view_members(members@), key@);
    }
    let ghost vm = view_members(members@);
    let mut i: usize = 0;
    while i < members.len()
        invariant
            i <= members.len(),
            vm == view_members(members@),
            vm.len() == members.len(),
            forall|k: int| 0 <= k < members.len() ==> #[trigger] vm[k] == (members@[k].0@, members@[k].1@),
            forall|j: int| 0 <= j < i ==> vm[j].0 != key@,
        decreases members.len() - i,
    {
        if crate::text::str_eq(members[i].0.as_str(), key) {
            proof {
                lemma_member_get_first(vm, key@, i as int);
            }
            return Some(i);
        }
        i = i + 1;
    }
    proof {
        if member_has(vm, key@) {
            let k = choose|k: int| 0 <= k < vm.len() && vm[k].0 == key@;
            assert(vm[k].0 != key@);
        }
    }
    None
}

pub proof fn lemma_member_get_first(members: Seq<(Seq<char>, JValue)>, key: Seq<char>, i: int)
    requires
        0 <= i < members.len(),
        members[i].0 == key,
        forall|j: int| 0 <= j < i ==> members[j].0 != key,
    ensures
        member_get(members, key) == Some(members[i].1),
    decreases i,
{
    if i > 0 {
        let rest = members.drop_first();
        assert forall|j: int| 0 <= j < i - 1 implies rest[j].0 != key by {
            assert(rest[j] == members[j + 1]);
        }
        lemma_member_get_first(rest, key, i - 1);
    }
}

/// The value of the first member named `key`, if any.
pub fn object_get<'a>(members: &'a Vec<(String, JsonValue)>, key: &str) -> (r: Option<&'a JsonValue>)
    ensures
        r matches Some(v) ==> member_get(view_members(members@), key@) == Some(v@),
        r is None ==> member_get(view_members(members@), key@) is None,
{
    match find_member(members, key) {
        Some(i) => Some(&members[i].1),
        None => None,
    }
}

impl JsonNumber {
    /// A copy with the same view.
    pub fn duplicate(&self) -> (r: JsonNumber)
        ensures
            r@ == self@,
    {
        match self {
            JsonNumber::PosInt(n) => JsonNumber::PosInt(*n),
            JsonNumber::NegInt(n) => JsonNumber::NegInt(*n),
            JsonNumber::Float(t) => JsonNumber::Float(t.clone()),
        }
    }
}

impl JsonValue {
    /// A deep copy with the same view.
    #[verifier::loop_isolation(false)]
    pub fn duplicate(&self) -> (r: JsonValue)
        ensures
            r@ == self@,
        decreases self,
    {
        match self {
            JsonValue::Null => JsonValue::Null,
            JsonValue::Bool(b) => JsonValue::Bool(*b),
            JsonValue::Number(n) => JsonValue::Number(n.duplicate()),
            JsonValue::Str(s) => JsonValue::Str(s.clone()),
            JsonValue::Array(items) => {
                let mut out: Vec<JsonValue> = Vec::new();
                let mut i: usize = 0;
                while i < items.len()
                    invariant
                        i <= items.len(),
                        view_items(out@) == view_items(items@.subrange(0, i as int)),
                    decreases items.len() - i,
                {
                    proof {
                                                assert(decreases_to!(*self => self->Array_0));
                        assert(decreases_to!(*items => items@));
                        assert(decreases_to!(items@ => items@[i as int]));
                    }
                    let c = items[i].duplicate();
                    let ghost before = out@;
                    out.push(c);
                    proof {
                        assert(out@.drop_last() =~= before);
                        assert(items@.subrange(0, i + 1).drop_last() =~= items@.subrange(0, i as int));
                    }
                    i = i + 1;
                }
                assert(items@.subrange(0, items@.len() as int) =~= items@);
                JsonValue::Array(out)
            },
            JsonValue::Object(members) => {
                let mut out: Vec<(String, JsonValue)> = Vec::new();
                let mut i: usize = 0;
                while i < members.len()
                    invariant
                        i <= members.len(),
                        view_members(out@) == view_members(members@.subrange(0, i as int)),
                    decreases members.len() - i,
                {
                    proof {
                                                assert(decreases_to!(*self => self->Object_0));
                        assert(decreases_to!(*members => members@));
                        assert(decreases_to!(members@ => members@[i as int]));
                        assert(decreases_to!(members@[i as int] => members@[i as int].1));
                    }
                    let c = members[i].1.duplicate();
                    let k = members[i].0.clone();
                    let ghost before = out@;
                    out.push((k, c));
                    proof {
                        assert(out@.drop_last() =~= before);
                        assert(members@.subrange(0, i + 1).drop_last() =~= members@.subrange(0, i as int));
                    }
                    i = i + 1;
                }
                assert(members@.subrange(0, members@.len() as int) =~= members@);
                JsonValue::Object(out)
            },
        }
    }

    pub fn is_null(&self) -> (r: bool)
        ensures
            r == (self@ is Null),
    {
        match self {
            JsonValue::Null => true,
            _ => false,
        }
    }

    pub fn is_object(&self) -> (r: bool)
        ensures
            r == (self@ is Object),
    {
        match self {
            JsonValue::Object(_) => true,
            _ => false,
        }
    }

    /// The members when the value is an object.
    pub fn as_object(&self) -> (r: Option<&Vec<(String, JsonValue)>>)
        ensures
            r matches Some(m) ==> self@ == JValue::Object(view_members(m@)),
            r is None ==> !(self@ is Object),
    {
        match self {
            JsonValue::Object(m) => Some(m),
            _ => None,
        }
    }

    /// The text when the value is a string.
    pub fn as_str(&self) -> (r: Option<&String>)
        ensures
            r matches Some(s) ==> self@ == JValue::Str(s@),
            r is None ==> !(self@ is Str),
    {
        match self {
            JsonValue::Str(s) => Some(s),
            _ => None,
        }
    }

    /// The flag when the value is a boolean.
    pub fn as_bool(&self) -> (r: Option<bool>)
        ensures
            r matches Some(b) ==> self@ == JValue::Bool(b),
            r is None ==> !(self@ is Bool),
    {
        match self {
            JsonValue::Bool(b) => Some(*b),
            _ => None,
        }
    }

    /// The number when the value is a non-negative integer that fits `u64`.
    pub fn as_u64(&self) -> (r: Option<u64>)
        ensures
            r matches Some(n) ==> self@ == JValue::Number(JNum::PosInt(n as nat)),
            r is None ==> !(self@ matches JValue::Number(JNum::PosInt(_))),
    {
        match self {
            JsonValue::Number(JsonNumber::PosInt(n)) => Some(*n),
            _ => None,
        }
    }
}

/// `serde_json::Value`, carried opaquely between the reader, the printer and
/// the conversions to and from the library's document model.
#[verifier::external_type_specification]
#[verifier::external_body]
pub struct ExSerdeJsonValue(serde_json::Value);

/// What `serde_json::from_str::<serde_json::Value>` makes of a text: the
/// document, or the reader's error message.
pub uninterp spec fn spec_parse_json(text: Seq<char>) -> Result<JValue, Seq<char>>;

/// The compact text that `serde_json::Value`'s `Display` prints for a document.
pub uninterp spec fn spec_json_text(v: JValue) -> Seq<char>;

/// Moves a `serde_json::Value` into the library's document model, variant for
/// variant (an object's members in the order the map yields them).
#[verifier::external_body]
fn json_from_serde(v: SerdeValue) -> JsonValue {
    match v {
        SerdeValue::Null => JsonValue::Null,
        SerdeValue::Bool(b) => JsonValue::Bool(b),
        SerdeValue::Number(n) => JsonValue::Number(match (n.as_u64(), n.as_i64()) {
            (Some(u), _) => JsonNumber::PosInt(u),
            (None, Some(i)) => JsonNumber::NegInt(i),
            (None, None) => JsonNumber::Float(n.to_string()),
        }),
        SerdeValue::String(s) => JsonValue::Str(s),
        SerdeValue::Array(items) => JsonValue::Array(items.into_iter().map(json_from_serde).collect()),
        SerdeValue::Object(m) => JsonValue::Object(m.into_iter().map(|(k, x)| (k, json_from_serde(x))).collect()),
    }
}

/// Moves the library's document model into a `serde_json::Value`, variant for variant.
#[verifier::external_body]
fn json_to_serde(v: &JsonValue) -> SerdeValue {
    match v {
        JsonValue::Null => SerdeValue::Null,
        JsonValue::Bool(b) => SerdeValue::Bool(*b),
        JsonValue::Number(JsonNumber::PosInt(u)) => SerdeValue::from(*u),
        JsonValue::Number(JsonNumber::NegInt(i)) => SerdeValue::from(*i),
        JsonValue::Number(JsonNumber::Float(t)) => t.parse::<serde_json::Number>().map(SerdeValue::Number).unwrap_or(SerdeValue::Null),
        JsonValue::Str(s) => SerdeValue::String(s.clone()),
        JsonValue::Array(items) => SerdeValue::Array(items.iter().map(json_to_serde).collect()),
        JsonValue::Object(m) => SerdeValue::Object(m.iter().map(|(k, x)| (k.clone(), json_to_serde(x))).collect()),
    }
}

/// `serde_json::from_str::<serde_json::Value>`: reads a JSON text. The result is
/// named by `spec_parse_json`; what the reader accepts is serde_json's grammar,
/// which is not restated here.
#[verifier::external_body]
pub(crate) fn parse_json_text(input: &str) -> (r: Result<JsonValue, String>)
    ensures
        match r {
            Ok(v) => spec_parse_json(input@) == Ok::<JValue, Seq<char>>(v@),
            Err(e) => spec_parse_json(input@) == Err::<JValue, Seq<char>>(e@),
        },
{
    match serde_json::from_str::<SerdeValue>(input) {
        Ok(v) => Ok(json_from_serde(v)),
        Err(e) => Err(e.to_string()),
    }
}

/// `serde_json::Value`'s `Display`: the compact JSON text of a document, named
/// by `spec_json_text`; the escaping rules are serde_json's and not restated.
#[verifier::external_body]
pub(crate) fn json_text(v: &JsonValue) -> (r: String)
    ensures
        r@ == spec_json_text(v@),
{
    json_to_serde(v).to_string()
}

} // verus!
