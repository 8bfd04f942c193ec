//! JSON values: a plain data type, its mathematical view and the accessors that
//! the rest of the library reads it with.

use vstd::prelude::*;

use crate::text::{decimal, decimal_text, owned, same, signed_decimal, signed_decimal_text};

verus! {

broadcast use vstd::string::group_string_axioms;

/// A JSON value. Numbers are kept as `serde_json` keeps them: a number that is
/// not negative and fits in 64 bits, a negative number that fits in 64 bits, or
/// any other number.
#[derive(Debug, PartialEq, Eq)]
pub enum Json {
    Null,
    Bool(bool),
    Unsigned(u64),
    Signed(i64),
    Float(serde_json::Number),
    Text(String),
    List(Vec<Json>),
    Object(Vec<(String, Json)>),
}

/// The mathematical view of a JSON value.
pub enum Tree {
    Null,
    Bool(bool),
    Unsigned(u64),
    Signed(i64),
    Float(serde_json::Number),
    Text(Seq<char>),
    List(Seq<Tree>),
    Object(Seq<(Seq<char>, Tree)>),
}

impl Json {
    pub open spec fn tree(self) -> Tree
        decreases self,
    {
        match self {
            Json::Null => Tree::Null,
            Json::Bool(b) => Tree::Bool(b),
            Json::Unsigned(n) => Tree::Unsigned(n),
            Json::Signed(n) => Tree::Signed(n),
            Json::Float(n) => Tree::Float(n),
            Json::Text(s) => Tree::Text(s@),
            Json::List(v) => Tree::List(
                Seq::new(
                    v@.len(),
                    |i: int|
                        if 0 <= i < v@.len() {
                            v@[i].tree()
                        } else {
                            Tree::Null
                        },
                ),
            ),
            Json::Object(v) => Tree::Object(
                Seq::new(
                    v@.len(),
                    |i: int|
                        if 0 <= i < v@.len() {
                            (v@[i].0@, v@[i].1.tree())
                        } else {
                            (Seq::empty(), Tree::Null)
                        },
                ),
            ),
        }
    }
}

impl View for Json {
    type V = Tree;

    open spec fn view(&self) -> Tree {
        self.tree()
    }
}

/// The views of a list of JSON values.
pub open spec fn trees(v: Seq<Json>) -> Seq<Tree> {
    Seq::new(v.len(), |i: int| v[i]@)
}

/// The views of the members of a JSON object.
pub open spec fn members(v: Seq<(String, Json)>) -> Seq<(Seq<char>, Tree)> {
    Seq::new(v.len(), |i: int| (v[i].0@, v[i].1@))
}

pub proof fn lemma_list_view(v: Vec<Json>)
    ensures
        Json::List(v)@ == Tree::List(trees(v@)),
{
    assert(Json::List(v)@->List_0 =~= trees(v@));
}

pub proof fn lemma_object_view(v: Vec<(String, Json)>)
    ensures
        Json::Object(v)@ == Tree::Object(members(v@)),
{
    assert(Json::Object(v)@->Object_0 =~= members(v@));
}

/// The value of the first member named `key`.
pub open spec fn find_member(m: Seq<(Seq<char>, Tree)>, key: Seq<char>) -> Option<Tree>
    decreases m.len(),
{
    if m.len() == 0 {
        None
    } else if m[0].0 == key {
        Some(m[0].1)
    } else {
        find_member(m.drop_first(), key)
    }
}

/// The member `key` of an object; no other value has members.
pub open spec fn member(t: Tree, key: Seq<char>) -> Option<Tree> {
    match t {
        Tree::Object(m) => find_member(m, key),
        _ => None,
    }
}

/// The member of a value that may be missing.
pub open spec fn member_of(t: Option<Tree>, key: Seq<char>) -> Option<Tree> {
    match t {
        Some(v) => member(v, key),
        None => None,
    }
}

/// The first of two values that is there.
pub open spec fn first_of<T>(a: Option<T>, b: Option<T>) -> Option<T> {
    match a {
        Some(v) => Some(v),
        None => b,
    }
}

pub open spec fn tree_text(t: Option<Tree>) -> Option<Seq<char>> {
    match t {
        Some(Tree::Text(s)) => Some(s),
        _ => None,
    }
}

pub open spec fn tree_bool(t: Option<Tree>) -> Option<bool> {
    match t {
        Some(Tree::Bool(b)) => Some(b),
        _ => None,
    }
}

pub open spec fn tree_u64(t: Option<Tree>) -> Option<u64> {
    match t {
        Some(Tree::Unsigned(n)) => Some(n),
        _ => None,
    }
}

pub open spec fn tree_i64(t: Option<Tree>) -> Option<i64> {
    match t {
        Some(Tree::Unsigned(n)) => if n <= i64::MAX {
            Some(n as i64)
        } else {
            None
        },
        Some(Tree::Signed(n)) => Some(n),
        _ => None,
    }
}

pub open spec fn tree_list(t: Option<Tree>) -> Option<Seq<Tree>> {
    match t {
        Some(Tree::List(v)) => Some(v),
        _ => None,
    }
}

/// The text of a string, a number or a truth value.
pub open spec fn scalar_text(t: Option<Tree>) -> Option<Seq<char>> {
    match t {
        Some(Tree::Text(s)) => Some(s),
        Some(Tree::Bool(b)) => Some(
            if b {
                "true"@
            } else {
                "false"@
            },
        ),
        Some(Tree::Unsigned(n)) => Some(decimal(n as nat)),
        Some(Tree::Signed(n)) => Some(signed_decimal(n as int)),
        Some(Tree::Float(n)) => Some(text_of_json(Tree::Float(n))),
        _ => None,
    }
}

/// The view of a reference to a JSON value that may be missing.
pub open spec fn opt_tree(v: Option<&Json>) -> Option<Tree> {
    match v {
        Some(j) => Some(j@),
        None => None,
    }
}

/// The view of a reference to a text that may be missing.
pub open spec fn opt_str(v: Option<&str>) -> Option<Seq<char>> {
    match v {
        Some(s) => Some(s@),
        None => None,
    }
}

impl Json {
    /// The member `key` of an object.
    pub fn get(&self, key: &str) -> (r: Option<&Json>)
        ensures
            opt_tree(r) == member(self@, key@),
            r matches Some(v) ==> decreases_to!(self => v),
    {
        match self {
            Json::Object(v) => {
                proof {
                    lemma_object_view(*v);
                }
                let ghost m = members(v@);
                let mut i: usize = 0;
                proof {
                    assert(m.skip(0) =~= m);
                }
                while i < v.len()
                    invariant
                        i <= v@.len(),
                        m == members(v@),
                        *self == Json::Object(*v),
                        self@ == Tree::Object(m),
                        find_member(m.skip(i as int), key@) == find_member(m, key@),
                    decreases v@.len() - i,
                {
                    proof {
                        assert(m.skip(i as int)[0] == m[i as int]);
                        assert(m.skip(i as int).drop_first() =~= m.skip(i + 1));
                    }
                    if same(v[i].0.as_str(), key) {
                        proof {
                            assert(decreases_to!(self => self->Object_0));
                            assert(decreases_to!(*v => v@[i as int]));
                            assert(decreases_to!(v@[i as int] => v@[i as int].1));
                        }
                        return Some(&v[i].1);
                    }
                    i = i + 1;
                }
                None
            },
            _ => None,
        }
    }

    pub fn as_str(&self) -> (r: Option<&str>)
        ensures
            opt_str(r) == tree_text(Some(self@)),
    {
        match self {
            Json::Text(s) => Some(s.as_str()),
            _ => None,
        }
    }

    pub fn as_bool(&self) -> (r: Option<bool>)
        ensures
            r == tree_bool(Some(self@)),
    {
        match self {
            Json::Bool(b) => Some(*b),
            _ => None,
        }
    }

    pub fn as_u64(&self) -> (r: Option<u64>)
        ensures
            r == tree_u64(Some(self@)),
    {
        match self {
            Json::Unsigned(n) => Some(*n),
            _ => None,
        }
    }

    pub fn as_i64(&self) -> (r: Option<i64>)
        ensures
            r == tree_i64(Some(self@)),
    {
        match self {
            Json::Unsigned(n) => if *n <= 9223372036854775807u64 {
                Some(*n as i64)
            } else {
                None
            },
            Json::Signed(n) => Some(*n),
            _ => None,
        }
    }

    pub fn as_list(&self) -> (r: Option<&Vec<Json>>)
        ensures
            match r {
                Some(v) => tree_list(Some(self@)) == Some(trees(v@)),
                None => tree_list(Some(self@)) is None,
            },
    {
        match self {
            Json::List(v) => {
                proof {
                    lemma_list_view(*v);
                }
                Some(v)
            },
            _ => None,
        }
    }

    pub fn is_null(&self) -> (r: bool)
        ensures
            r == (self@ is Null),
    {
        match self {
            Json::Null => true,
            _ => false,
        }
    }

    pub fn is_object(&self) -> (r: bool)
        ensures
            r == (self@ is Object),
    {
        match self {
            Json::Object(_) => true,
            _ => false,
        }
    }

    /// The text of a string, a number or a truth value.
    pub fn as_scalar_text(&self) -> (r: Option<String>)
        ensures
            crate::text::opt(r) == scalar_text(Some(self@)),
    {
        match self {
            Json::Text(s) => Some(s.clone()),
            Json::Bool(b) => Some(
                if *b {
                    owned("true")
                } else {
                    owned("false")
                },
            ),
            Json::Unsigned(n) => Some(decimal_text(*n)),
            Json::Signed(n) => Some(signed_decimal_text(*n)),
            Json::Float(_) => Some(json_to_text(self)),
            _ => None,
        }
    }

    /// A copy of the value.
    pub fn copy(&self) -> (r: Json)
        ensures
            r@ == self@,
        decreases self,
    {
        match self {
            Json::Null => Json::Null,
            Json::Bool(b) => Json::Bool(*b),
            Json::Unsigned(n) => Json::Unsigned(*n),
            Json::Signed(n) => Json::Signed(*n),
            Json::Float(n) => Json::Float(copy_number(n)),
            Json::Text(s) => Json::Text(s.clone()),
            Json::List(v) => {
                let mut out: Vec<Json> = Vec::new();
                let mut i: usize = 0;
                while i < v.len()
                    invariant
                        i <= v@.len(),
                        *self == Json::List(*v),
                        out@.len() == i,
                        forall|k: int| 0 <= k < i ==> (#[trigger] out@[k])@ == v@[k]@,
                    decreases v@.len() - i,
                {
                    proof {
                        assert(decreases_to!(self => self->List_0));
                        assert(decreases_to!(*v => v@[i as int]));
                    }
                    out.push(v[i].copy());
                    i = i + 1;
                }
                proof {
                    lemma_list_view(*v);
                    lemma_list_view(out);
                    assert(trees(out@) =~= trees(v@));
                }
                Json::List(out)
            },
            Json::Object(v) => {
                let mut out: Vec<(String, Json)> = Vec::new();
                let mut i: usize = 0;
                while i < v.len()
                    invariant
                        i <= v@.len(),
                        *self == Json::Object(*v),
                        out@.len() == i,
                        forall|k: int|
                            0 <= k < i ==> (#[trigger] out@[k]).0@ == v@[k].0@ && out@[k].1@
                                == v@[k].1@,
                    decreases v@.len() - i,
                {
                    proof {
                        assert(decreases_to!(self => self->Object_0));
                        assert(decreases_to!(*v => v@[i as int]));
                        assert(decreases_to!(v@[i as int] => v@[i as int].1));
                    }
                    let copied = v[i].1.copy();
                    out.push((v[i].0.clone(), copied));
                    i = i + 1;
                }
                proof {
                    lemma_object_view(*v);
                    lemma_object_view(out);
                    assert(members(out@) =~= members(v@));
                }
                Json::Object(out)
            },
        }
    }
}

/// The value with the member `key` put at the end of an object that has none of
/// that name. Other values stay as they are.
pub open spec fn with_default(t: Tree, key: Seq<char>, value: Tree) -> Tree {
    match t {
        Tree::Object(m) => if find_member(m, key) is Some {
            t
        } else {
            Tree::Object(m.push((key, value)))
        },
        _ => t,
    }
}

/// Gives an object the member `key` unless it has one.
pub fn put_default(target: &mut Json, key: &str, value: Json)
    ensures
        final(target)@ == with_default(old(target)@, key@, value@),
{
    if target.get(key).is_some() {
        return;
    }
    let mut taken = Json::Null;
    std::mem::swap(&mut taken, target);
    match taken {
        Json::Object(mut v) => {
            let ghost before = v@;
            proof {
                lemma_object_view(v);
            }
            v.push((owned(key), value));
            proof {
                lemma_object_view(v);
                assert(members(v@) =~= members(before).push((key@, value@)));
            }
            *target = Json::Object(v);
        },
        other => {
            *target = other;
        },
    }
}

/// What `put_default` leaves behind: the named member is there, with the value
/// that stood there before or else the given one, and no other member changed.
pub proof fn lemma_with_default(t: Tree, key: Seq<char>, value: Tree, other: Seq<char>)
    requires
        t is Object,
    ensures
        member(with_default(t, key, value), key) == Some(
            match member(t, key) {
                Some(v) => v,
                None => value,
            },
        ),
        other != key ==> member(with_default(t, key, value), other) == member(t, other),
{
    let m = t->Object_0;
    lemma_find_pushed(m, key, value, key);
    lemma_find_pushed(m, key, value, other);
}

proof fn lemma_find_pushed(
    m: Seq<(Seq<char>, Tree)>,
    key: Seq<char>,
    value: Tree,
    other: Seq<char>,
)
    ensures
        find_member(m.push((key, value)), other) == (match find_member(m, other) {
            Some(v) => Some(v),
            None => if other == key {
                Some(value)
            } else {
                None
            },
        }),
    decreases m.len(),
{
    let p = m.push((key, value));
    if m.len() == 0 {
        assert(p.drop_first() =~= Seq::empty());
        assert(find_member(p.drop_first(), other) is None);
    } else {
        assert(p.drop_first() =~= m.drop_first().push((key, value)));
        lemma_find_pushed(m.drop_first(), key, value, other);
    }
}

// ---------------------------------------------------------------------------
// Building values
// ---------------------------------------------------------------------------

/// A text as a JSON value.
pub fn json_text(s: &str) -> (r: Json)
    ensures
        r@ == Tree::Text(s@),
{
    Json::Text(owned(s))
}

/// A list as a JSON value.
pub fn json_list(items: Vec<Json>) -> (r: Json)
    ensures
        r@ == Tree::List(trees(items@)),
{
    proof {
        lemma_list_view(items);
    }
    Json::List(items)
}

/// An object with some members.
pub fn json_object(list: Vec<(String, Json)>) -> (r: Json)
    ensures
        r@ == Tree::Object(members(list@)),
{
    proof {
        lemma_object_view(list);
    }
    Json::Object(list)
}

/// A member of an object.
pub fn json_member(key: &str, value: Json) -> (r: (String, Json))
    ensures
        r.0@ == key@,
        r.1@ == value@,
{
    (owned(key), value)
}

// ---------------------------------------------------------------------------
// Reading and writing JSON text
// ---------------------------------------------------------------------------

#[verifier::external_type_specification]
#[verifier::external_body]
pub struct ExJsonValue(serde_json::Value);

#[verifier::external_type_specification]
#[verifier::external_body]
pub struct ExJsonNumber(serde_json::Number);

/// `serde_json::Number::clone`: the same number.
#[verifier::external_body]
fn copy_number(n: &serde_json::Number) -> (r: serde_json::Number)
    ensures
        r == *n,
{
    n.clone()
}

/// The value that `serde_json::from_str` reads from a text, if the text is JSON.
pub uninterp spec fn json_of_text(text: Seq<char>) -> Option<Tree>;

/// The text that `serde_json::to_string` writes for a value.
pub uninterp spec fn text_of_json(value: Tree) -> Seq<char>;

/// Turns a `serde_json::Value` into the same value of this library. Nothing is
/// claimed of it by itself; `parse_json` says what becomes of a text.
#[verifier::external_body]
fn from_outside(value: serde_json::Value) -> Json {
    match value {
        serde_json::Value::Null => Json::Null,
        serde_json::Value::Bool(b) => Json::Bool(b),
        serde_json::Value::Number(n) => match (n.as_u64(), n.as_i64()) {
            (Some(u), _) => Json::Unsigned(u),
            (None, Some(i)) => Json::Signed(i),
            (None, None) => Json::Float(n),
        },
        serde_json::Value::String(s) => Json::Text(s),
        serde_json::Value::Array(v) => Json::List(v.into_iter().map(from_outside).collect()),
        serde_json::Value::Object(m) =>
            Json::Object(m.into_iter().map(|(k, v)| (k, from_outside(v))).collect()),
    }
}

/// Turns a value of this library into the same `serde_json::Value`. Nothing is
/// claimed of it by itself; `json_to_text` says what text a value becomes.
#[verifier::external_body]
fn to_outside(value: &Json) -> serde_json::Value {
    match value {
        Json::Null => serde_json::Value::Null,
        Json::Bool(b) => serde_json::Value::from(*b),
        Json::Unsigned(n) => serde_json::Value::from(*n),
        Json::Signed(n) => serde_json::Value::from(*n),
        Json::Float(n) => serde_json::Value::Number(n.clone()),
        Json::Text(s) => serde_json::Value::from(s.as_str()),
        Json::List(v) => serde_json::Value::Array(v.iter().map(to_outside).collect()),
        Json::Object(m) => serde_json::Value::Object(
            m.iter().map(|(k, v)| (k.clone(), to_outside(v))).collect(),
        ),
    }
}

/// `serde_json::from_str` into a `serde_json::Value`: `None` where the text is
/// not JSON, else the value, which depends on the text alone.
#[verifier::external_body]
pub(crate) fn parse_json(text: &str) -> (r: Option<Json>)
    ensures
        (match r {
            Some(v) => Some(v@),
            None => None,
        }) == json_of_text(text@),
{
    serde_json::from_str::<serde_json::Value>(text).ok().map(from_outside)
}

/// `serde_json::to_string` of a value: compact JSON text, which depends on the
/// value alone.
#[verifier::external_body]
pub(crate) fn json_to_text(value: &Json) -> (r: String)
    ensures
        r@ == text_of_json(value@),
{
    serde_json::to_string(&to_outside(value)).unwrap_or_default()
}

} // verus!
