//! JSON documents: what one holds, how it is read and built, and the passage
//! between documents and text. The documents themselves are `serde_json`'s.

use serde_json::Value;
use vstd::prelude::*;
use vstd::utf8::encode_utf8;

verus! {

/// `serde_json::Value`: opaque, with [`value_view`] as the name of its contents.
#[verifier::external_type_specification]
#[verifier::external_body]
pub struct ExValue(serde_json::Value);

/// A JSON document as a mathematical value.
#[verifier::ext_equal]
pub enum JsonView {
    Null,
    Bool(bool),
    /// An integer in the range of `u64`.
    Uint(u64),
    /// A negative integer in the range of `i64`.
    Int(i64),
    /// Any other number, by the bits of its double.
    Float(u64),
    Str(Seq<char>),
    Arr(Seq<JsonView>),
    /// An object, as a finite map from member names to members.
    Obj(Map<Seq<char>, JsonView>),
}

/// What a document holds.
pub uninterp spec fn value_view(v: Value) -> JsonView;

/// The document that bytes of JSON text denote, `None` where they are not one JSON text.
pub uninterp spec fn json_parse(bytes: Seq<u8>) -> Option<JsonView>;

/// The compact JSON text of a document.
pub uninterp spec fn json_text(j: JsonView) -> Seq<char>;

impl JsonView {
    /// The member called `key`, where this is an object that has one.
    pub open spec fn member(self, key: Seq<char>) -> Option<JsonView> {
        match self {
            JsonView::Obj(m) => if m.dom().contains(key) {
                Some(m[key])
            } else {
                None
            },
            _ => None,
        }
    }

    /// The string that this is, if it is one.
    pub open spec fn as_text(self) -> Option<Seq<char>> {
        match self {
            JsonView::Str(s) => Some(s),
            _ => None,
        }
    }

    /// The unsigned integer that this is, if it is one.
    pub open spec fn as_uint(self) -> Option<u64> {
        match self {
            JsonView::Uint(n) => Some(n),
            _ => None,
        }
    }

    /// The truth value that this is, if it is one.
    pub open spec fn as_flag(self) -> Option<bool> {
        match self {
            JsonView::Bool(b) => Some(b),
            _ => None,
        }
    }

    /// No number in the document is a double, and at most `depth` arrays and
    /// objects are open at any point of it.
    pub open spec fn exact(self, depth: nat) -> bool
        decreases self,
    {
        match self {
            JsonView::Float(_) => false,
            JsonView::Arr(items) => depth > 0 && forall|i: int|
                0 <= i < items.len() ==> (#[trigger] items[i]).exact((depth - 1) as nat),
            JsonView::Obj(m) => depth > 0 && m.dom().finite() && forall|k: Seq<char>|
                #![trigger m[k]]
                m.dom().contains(k) ==> m[k].exact((depth - 1) as nat),
            _ => true,
        }
    }
}

/// `serde_json::from_slice` into a `Value`: the document named by [`json_parse`],
/// nothing where the call fails.
#[verifier::external_body]
pub(crate) fn parse(bytes: &[u8]) -> (r: Option<Value>)
    ensures
        match r {
            Some(v) => json_parse(bytes@) == Some(value_view(v)),
            None => json_parse(bytes@) is None,
        },
{
    serde_json::from_slice::<Value>(bytes).ok()
}

/// `Value::to_string`: the compact text named by [`json_text`]. It has no character below the
/// space, so no line break, since the compact form sets no white space and strings escape
/// such characters. Reading it back gives the document, where the parser's bound
/// on nesting (127 levels) and its rounding of doubles do not stand in the way.
#[verifier::external_body]
pub(crate) fn to_text(v: &Value) -> (r: String)
    ensures
        r@ == json_text(value_view(*v)),
        forall|i: int| 0 <= i < r@.len() ==> (#[trigger] r@[i]) >= ' ',
        value_view(*v).exact(127) ==> json_parse(encode_utf8(r@)) == Some(value_view(*v)),
{
    v.to_string()
}

/// `Value::get` with a member name: the member, where the document is an object that
/// has it.
#[verifier::external_body]
pub(crate) fn member<'a>(v: &'a Value, key: &str) -> (r: Option<&'a Value>)
    ensures
        match r {
            Some(m) => value_view(*v).member(key@) == Some(value_view(*m)),
            None => value_view(*v).member(key@) is None,
        },
{
    v.get(key)
}

/// `Value::as_str`: the string that the document is, if it is one.
pub assume_specification[ serde_json::Value::as_str ](v: &Value) -> (r: Option<&str>)
    ensures
        match r {
            Some(s) => value_view(*v).as_text() == Some(s@),
            None => value_view(*v).as_text() is None,
        },
;

/// `Value::as_u64`: the unsigned integer that the document is, if it is one.
pub assume_specification[ serde_json::Value::as_u64 ](v: &Value) -> (r: Option<u64>)
    ensures
        r == value_view(*v).as_uint(),
;

/// `Value::as_bool`: the truth value that the document is, if it is one.
pub assume_specification[ serde_json::Value::as_bool ](v: &Value) -> (r: Option<bool>)
    ensures
        r == value_view(*v).as_flag(),
;

/// `Value::is_object`: whether the document is an object.
pub assume_specification[ serde_json::Value::is_object ](v: &Value) -> (r: bool)
    ensures
        r == (value_view(*v) is Obj),
;

/// `Value::clone`: a document that holds the same.
pub assume_specification[ <serde_json::Value as Clone>::clone ](v: &Value) -> (r: Value)
    ensures
        value_view(r) == value_view(*v),
;

/// The top of a document, from which `make` builds it.
pub enum Node {
    Null,
    Bool(bool),
    Uint(u64),
    Str(String),
    Arr(Vec<Value>),
    /// An object without members.
    Empty,
}

/// The documents of a list.
pub open spec fn values_view(items: Seq<Value>) -> Seq<JsonView> {
    items.map_values(|v: Value| value_view(v))
}

impl Node {
    pub open spec fn document(self) -> JsonView {
        match self {
            Node::Null => JsonView::Null,
            Node::Bool(b) => JsonView::Bool(b),
            Node::Uint(n) => JsonView::Uint(n),
            Node::Str(s) => JsonView::Str(s@),
            Node::Arr(items) => JsonView::Arr(values_view(items@)),
            Node::Empty => JsonView::Obj(Map::empty()),
        }
    }
}

/// The variants of `serde_json::Value`, with `Number::from` for an integer and `Map::new`
/// for an object: the document with the given top.
#[verifier::external_body]
pub(crate) fn make(node: Node) -> (r: Value)
    ensures
        value_view(r) == node.document(),
{
    match node {
        Node::Null => Value::Null,
        Node::Bool(b) => Value::Bool(b),
        Node::Uint(n) => Value::Number(serde_json::Number::from(n)),
        Node::Str(s) => Value::String(s),
        Node::Arr(items) => Value::Array(items),
        Node::Empty => Value::Object(serde_json::Map::new()),
    }
}

/// `Value`'s `IndexMut` by a member name: the member of an object is set. It panics on most
/// other documents.
#[verifier::external_body]
pub(crate) fn set_member(v: &mut Value, key: &str, item: Value)
    requires
        value_view(*old(v)) is Obj,
    ensures
        value_view(*final(v)) == JsonView::Obj(
            value_view(*old(v))->Obj_0.insert(key@, value_view(item)),
        ),
{
    v[key] = item;
}

// -- building documents ---------------------------------------------------------------

pub fn null() -> (r: Value)
    ensures
        value_view(r) == JsonView::Null,
{
    make(Node::Null)
}

pub fn flag(b: bool) -> (r: Value)
    ensures
        value_view(r) == JsonView::Bool(b),
{
    make(Node::Bool(b))
}

pub fn uint(n: u64) -> (r: Value)
    ensures
        value_view(r) == JsonView::Uint(n),
{
    make(Node::Uint(n))
}

pub fn string(s: &str) -> (r: Value)
    ensures
        value_view(r) == JsonView::Str(s@),
{
    make(Node::Str(s.to_owned()))
}

pub fn list(items: Vec<Value>) -> (r: Value)
    ensures
        value_view(r) == JsonView::Arr(values_view(items@)),
{
    make(Node::Arr(items))
}

/// Puts a document at the end of a list.
pub(crate) fn push(items: &mut Vec<Value>, item: Value)
    ensures
        values_view(final(items)@) == values_view(old(items)@).push(value_view(item)),
{
    let ghost before = values_view(items@);
    items.push(item);
    assert(values_view(items@) == before.push(value_view(item)));
}

/// An object without members, to which `with` adds some.
pub fn object() -> (r: Value)
    ensures
        value_view(r) == JsonView::Obj(Map::empty()),
{
    make(Node::Empty)
}

/// An object with one more member.
pub fn with(v: Value, key: &str, item: Value) -> (r: Value)
    requires
        value_view(v) is Obj,
    ensures
        value_view(r) == JsonView::Obj(value_view(v)->Obj_0.insert(key@, value_view(item))),
{
    let mut v = v;
    set_member(&mut v, key, item);
    v
}

// -- reading members ------------------------------------------------------------------

/// The text of a member, where the document is an object with a text under that name.
pub open spec fn text_member(j: JsonView, key: Seq<char>) -> Option<Seq<char>> {
    match j.member(key) {
        Some(m) => m.as_text(),
        None => None,
    }
}

pub fn text_of<'a>(v: &'a Value, key: &str) -> (r: Option<&'a str>)
    ensures
        match r {
            Some(s) => text_member(value_view(*v), key@) == Some(s@),
            None => text_member(value_view(*v), key@) is None,
        },
{
    match member(v, key) {
        Some(m) => m.as_str(),
        None => None,
    }
}

pub open spec fn uint_member(j: JsonView, key: Seq<char>) -> Option<u64> {
    match j.member(key) {
        Some(m) => m.as_uint(),
        None => None,
    }
}

pub fn uint_of(v: &Value, key: &str) -> (r: Option<u64>)
    ensures
        r == uint_member(value_view(*v), key@),
{
    match member(v, key) {
        Some(m) => m.as_u64(),
        None => None,
    }
}

pub open spec fn flag_member(j: JsonView, key: Seq<char>) -> Option<bool> {
    match j.member(key) {
        Some(m) => m.as_flag(),
        None => None,
    }
}

pub fn flag_of(v: &Value, key: &str) -> (r: Option<bool>)
    ensures
        r == flag_member(value_view(*v), key@),
{
    match member(v, key) {
        Some(m) => m.as_bool(),
        None => None,
    }
}

// -- laws ------------------------------------------------------------------------------------

/// A member is read as what it is: a text as a text, an unsigned integer as one, a truth value
/// as one; anything else, and what is not there, as none of them.
pub proof fn members_are_read_as_what_they_are(members: Map<Seq<char>, JsonView>, key: Seq<char>)
    ensures
        ({
            let j = JsonView::Obj(members);
            &&& members.dom().contains(key) ==> j.member(key) == Some(members[key])
            &&& !members.dom().contains(key) ==> j.member(key) is None
            &&& text_member(j, key) is Some <==> members.dom().contains(key) && members[key] is Str
            &&& text_member(j, key) is Some ==> members[key] == JsonView::Str(
                text_member(j, key)->0,
            )
            &&& uint_member(j, key) is Some <==> members.dom().contains(key) && members[key] is Uint
            &&& uint_member(j, key) is Some ==> members[key] == JsonView::Uint(
                uint_member(j, key)->0,
            )
            &&& flag_member(j, key) is Some <==> members.dom().contains(key) && members[key] is Bool
            &&& flag_member(j, key) is Some ==> members[key] == JsonView::Bool(
                flag_member(j, key)->0,
            )
        }),
{
}

/// The documents of a list stand in its order.
pub proof fn documents_keep_their_order(items: Seq<Value>, i: int)
    ensures
        values_view(items).len() == items.len(),
        0 <= i < items.len() ==> values_view(items)[i] == value_view(items[i]),
{
}

} // verus!
