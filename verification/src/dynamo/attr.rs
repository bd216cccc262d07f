//! DynamoDB attribute values and their construction from JSON documents.
use vstd::prelude::*;
use crate::json::{JNum, JValue, JsonNumber, JsonValue, view_items, view_members};
use crate::text::{spec_decimal, spec_signed_decimal, u64_to_decimal, i64_to_decimal};

verus! {

/// A DynamoDB attribute value, as the wire protocol types it.
#[derive(Debug)]
pub enum AttrValue {
    /// A string (`S`).
    S(String),
    /// A number in its decimal text (`N`).
    N(String),
    /// A boolean (`BOOL`).
    Bool(bool),
    /// The null marker (`NULL`).
    Null(bool),
    /// A list (`L`).
    L(Vec<AttrValue>),
    /// A map (`M`), its entries in the order they were built.
    M(Vec<(String, AttrValue)>),
    /// Binary data (`B`).
    B(Vec<u8>),
    /// A set of strings (`SS`).
    Ss(Vec<String>),
    /// A set of numbers in their decimal texts (`NS`).
    Ns(Vec<String>),
    /// A set of binary values (`BS`).
    Bs(Vec<Vec<u8>>),
}

/// Abstract view of an attribute value.
pub ghost enum AttrView {
    S(Seq<char>),
    N(Seq<char>),
    Bool(bool),
    Null(bool),
    L(Seq<AttrView>),
    M(Seq<(Seq<char>, AttrView)>),
    B(Seq<u8>),
    Ss(Seq<Seq<char>>),
    Ns(Seq<Seq<char>>),
    Bs(Seq<Seq<u8>>),
}

impl AttrValue {
    pub open spec fn view(&self) -> AttrView
        decreases self,
    {
        match self {
            AttrValue::S(s) => AttrView::S(s@),
            AttrValue::N(s) => AttrView::N(s@),
            AttrValue::Bool(b) => AttrView::Bool(*b),
            AttrValue::Null(b) => AttrView::Null(*b),
            AttrValue::L(items) => AttrView::L(view_attrs(items@)),
            AttrValue::M(entries) => AttrView::M(view_attr_entries(entries@)),
            AttrValue::B(bytes) => AttrView::B(bytes@),
            AttrValue::Ss(items) => AttrView::Ss(items@.map_values(|t: String| t@)),
            AttrValue::Ns(items) => AttrView::Ns(items@.map_values(|t: String| t@)),
            AttrValue::Bs(items) => AttrView::Bs(items@.map_values(|b: Vec<u8>| b@)),
        }
    }
}

pub open spec fn view_attrs(s: Seq<AttrValue>) -> Seq<AttrView>
    decreases s,
{
    if s.len() == 0 {
        Seq::empty()
    } else {
        view_attrs(s.drop_last()).push(s.last().view())
    }
}

pub open spec fn view_attr_entries(s: Seq<(String, AttrValue)>) -> Seq<(Seq<char>, AttrView)>
    decreases s,
{
    if s.len() == 0 {
        Seq::empty()
    } else {
        view_attr_entries(s.drop_last()).push((s.last().0@, s.last().1.view()))
    }
}

pub proof fn lemma_view_attr_entries(s: Seq<(String, AttrValue)>)
    ensures
        view_attr_entries(s).len() == s.len(),
        forall|i: int| 0 <= i < s.len() ==> #[trigger] view_attr_entries(s)[i] == (s[i].0@, s[i].1@),
    decreases s.len(),
{
    if s.len() > 0 {
        lemma_view_attr_entries(s.drop_last());
    }
}

/// The decimal text a JSON number prints as.
pub open spec fn number_text(n: JNum) -> Seq<char> {
    match n {
        JNum::PosInt(u) => spec_decimal(u),
        JNum::NegInt(i) => spec_signed_decimal(i),
        JNum::Float(t) => t,
    }
}

/// The attribute value a JSON document stands for: strings, numbers and booleans
/// map to `S`, `N` and `BOOL`, null to `NULL`, arrays to lists and objects to maps.
pub open spec fn attr_of_json(v: JValue) -> AttrView
    decreases v,
{
    match v {
        JValue::Null => AttrView::Null(true),
        JValue::Bool(b) => AttrView::Bool(b),
        JValue::Number(n) => AttrView::N(number_text(n)),
        JValue::Str(s) => AttrView::S(s),
        JValue::Array(items) => AttrView::L(attr_list_of_json(items)),
        JValue::Object(members) => AttrView::M(attr_map_of_json(members)),
    }
}

pub open spec fn attr_list_of_json(items: Seq<JValue>) -> Seq<AttrView>
    decreases items,
{
    if items.len() == 0 {
        Seq::empty()
    } else {
        attr_list_of_json(items.drop_last()).push(attr_of_json(items.last()))
    }
}

pub open spec fn attr_map_of_json(members: Seq<(Seq<char>, JValue)>) -> Seq<(Seq<char>, AttrView)>
    decreases members,
{
    if members.len() == 0 {
        Seq::empty()
    } else {
        attr_map_of_json(members.drop_last()).push(
            (members.last().0, attr_of_json(members.last().1)),
        )
    }
}

/// The decimal text of a JSON number.
pub fn number_to_text(n: &JsonNumber) -> (r: String)
    ensures
        r@ == number_text(n@),
{
    match n {
        JsonNumber::PosInt(u) => u64_to_decimal(*u),
        JsonNumber::NegInt(i) => i64_to_decimal(*i),
        JsonNumber::Float(t) => t.clone(),
    }
}

/// Converts a JSON document into the attribute value it stands for.
#[verifier::loop_isolation(false)]
pub fn json_to_attr(v: &JsonValue) -> (r: AttrValue)
    ensures
        r@ == attr_of_json(v@),
    decreases v,
{
    match v {
        JsonValue::Null => AttrValue::Null(true),
        JsonValue::Bool(b) => AttrValue::Bool(*b),
        JsonValue::Number(n) => AttrValue::N(number_to_text(n)),
        JsonValue::Str(s) => AttrValue::S(s.clone()),
        JsonValue::Array(items) => {
            let mut out: Vec<AttrValue> = Vec::new();
            let mut i: usize = 0;
            while i < items.len()
                invariant
                    i <= items.len(),
                    view_attrs(out@) == attr_list_of_json(view_items(items@.subrange(0, i as int))),
                decreases items.len() - i,
            {
                proof {
                    assert(decreases_to!(*v => v->Array_0));
                    assert(decreases_to!(*items => items@));
                    assert(decreases_to!(items@ => items@[i as int]));
                }
                let c = json_to_attr(&items[i]);
                let ghost before = out@;
                out.push(c);
                proof {
                    assert(out@.drop_last() =~= before);
                    let pre = items@.subrange(0, i as int);
                    let cur = items@.subrange(0, i + 1);
                    assert(cur.drop_last() =~= pre);
                    let vx = view_items(pre);
                    assert(view_items(cur) == vx.push(items@[i as int]@));
                    assert(vx.push(items@[i as int]@).drop_last() =~= vx);
                    assert(attr_list_of_json(vx.push(items@[i as int]@)) == attr_list_of_json(vx).push(attr_of_json(items@[i as int]@)));
                }
                i = i + 1;
            }
            assert(items@.subrange(0, items@.len() as int) =~= items@);
            AttrValue::L(out)
        },
        JsonValue::Object(members) => {
            let out = json_members_to_attrs(members);
            AttrValue::M(out)
        },
    }
}

/// Converts every member of a JSON object, keeping names and order.
#[verifier::loop_isolation(false)]
pub fn json_members_to_attrs(members: &Vec<(String, JsonValue)>) -> (r: Vec<(String, AttrValue)>)
    ensures
        view_attr_entries(r@) == attr_map_of_json(view_members(members@)),
    decreases members,
{
    let mut out: Vec<(String, AttrValue)> = Vec::new();
    let mut i: usize = 0;
    while i < members.len()
        invariant
            i <= members.len(),
            view_attr_entries(out@) == attr_map_of_json(view_members(members@.subrange(0, i as int))),
        decreases members.len() - i,
    {
        proof {
            assert(decreases_to!(*members => members@));
            assert(decreases_to!(members@ => members@[i as int]));
            assert(decreases_to!(members@[i as int] => members@[i as int].1));
        }
        let c = json_to_attr(&members[i].1);
        let k = members[i].0.clone();
        let ghost before = out@;
        out.push((k, c));
        proof {
            assert(out@.drop_last() =~= before);
            let pre = members@.subrange(0, i as int);
            let cur = members@.subrange(0, i + 1);
            assert(cur.drop_last() =~= pre);
            let vx = view_members(pre);
            let e = (members@[i as int].0@, members@[i as int].1@);
            assert(view_members(cur) == vx.push(e));
            assert(vx.push(e).drop_last() =~= vx);
            assert(attr_map_of_json(vx.push(e)) == attr_map_of_json(vx).push((e.0, attr_of_json(e.1))));
        }
        i = i + 1;
    }
    assert(members@.subrange(0, members@.len() as int) =~= members@);
    out
}

} // verus!
