//! JSON values as plain data.
//!
//! `Json` mirrors the shape of `serde_json::Value`, with the fields of an object
//! kept in a list. Its view forgets the order of the fields: two values that
//! hold the same members are the same value.

use crate::text::same;
use vstd::prelude::*;

verus! {

/// `serde_json::Value`, carried through as it is; `open_value` takes it apart.
#[verifier::external_type_specification]
#[verifier::external_body]
pub struct ExValue(serde_json::Value);

/// `serde_json::Number`, carried through as it is.
#[verifier::external_type_specification]
#[verifier::external_body]
pub struct ExNumber(serde_json::Number);

/// A JSON value.
#[derive(Debug, PartialEq, Eq)]
pub enum Json {
    Null,
    Bool(bool),
    Number(serde_json::Number),
    String(String),
    Array(Vec<Json>),
    Object(Vec<(String, Json)>),
}

/// What a JSON value says, without the order of its members.
pub enum JsonView {
    Null,
    Bool(bool),
    Number(serde_json::Number),
    String(Seq<char>),
    Array(Seq<JsonView>),
    Object(Map<Seq<char>, JsonView>),
}

/// A `serde_json::Value` taken apart by one level.
pub enum Node {
    Null,
    Bool(bool),
    Number(serde_json::Number),
    String(String),
    Array(Vec<serde_json::Value>),
    Object(Vec<(String, serde_json::Value)>),
}

impl Json {
    /// The value that this tree stands for.
    pub open spec fn view(self) -> JsonView
        decreases self,
    {
        match self {
            Json::Null => JsonView::Null,
            Json::Bool(b) => JsonView::Bool(b),
            Json::Number(n) => JsonView::Number(n),
            Json::String(s) => JsonView::String(s@),
            Json::Array(items) => JsonView::Array(items_view(items@)),
            Json::Object(entries) => JsonView::Object(entries_view(entries@)),
        }
    }
}

/// The values of a list of trees.
pub open spec fn items_view(items: Seq<Json>) -> Seq<JsonView>
    decreases items,
{
    Seq::new(
        items.len(),
        |i: int|
            if 0 <= i < items.len() {
                items[i].view()
            } else {
                JsonView::Null
            },
    )
}

/// The members of an object; of two members with one name the later one counts.
pub open spec fn entries_view(entries: Seq<(String, Json)>) -> Map<Seq<char>, JsonView>
    decreases entries,
{
    if entries.len() == 0 {
        Map::empty()
    } else {
        entries_view(entries.drop_last()).insert(entries.last().0@, entries.last().1.view())
    }
}

/// What a `serde_json::Value` holds.
pub uninterp spec fn value_content(value: serde_json::Value) -> JsonView;

/// What `serde_json::Number::as_u64` returns.
pub uninterp spec fn number_natural(number: serde_json::Number) -> Option<u64>;

/// What `serde_json::from_str` makes of a text: `None` where it fails.
pub uninterp spec fn json_of_text(text: Seq<char>) -> Option<JsonView>;

/// What `serde_json::to_string` makes of a value.
pub uninterp spec fn json_text(content: JsonView) -> Seq<char>;

/// What a list of values holds.
pub open spec fn contents(items: Seq<serde_json::Value>) -> Seq<JsonView> {
    Seq::new(items.len(), |i: int| value_content(items[i]))
}

/// What the values of a list of members hold; the later member of a name counts.
pub open spec fn entry_contents(entries: Seq<(String, serde_json::Value)>) -> Map<
    Seq<char>,
    JsonView,
>
    decreases entries.len(),
{
    if entries.len() == 0 {
        Map::empty()
    } else {
        entry_contents(entries.drop_last()).insert(
            entries.last().0@,
            value_content(entries.last().1),
        )
    }
}

/// Whether no two members have one name.
pub open spec fn distinct_names(entries: Seq<(String, serde_json::Value)>) -> bool {
    forall|i: int, j: int|
        0 <= i < j < entries.len() ==> (#[trigger] entries[i]).0@ != (#[trigger] entries[j]).0@
}

impl Node {
    /// The value that was taken apart.
    pub open spec fn view(self) -> JsonView {
        match self {
            Node::Null => JsonView::Null,
            Node::Bool(b) => JsonView::Bool(b),
            Node::Number(n) => JsonView::Number(n),
            Node::String(s) => JsonView::String(s@),
            Node::Array(items) => JsonView::Array(contents(items@)),
            Node::Object(entries) => JsonView::Object(entry_contents(entries@)),
        }
    }
}

/// Takes a `serde_json::Value` apart by its variants: the node holds what the
/// value held. The members of a `serde_json::Map` come out with distinct names.
#[verifier::external_body]
fn open_value(value: serde_json::Value) -> (node: Node)
    ensures
        node@ == value_content(value),
        node matches Node::Object(entries) ==> distinct_names(entries@),
{
    match value {
        serde_json::Value::Null => Node::Null,
        serde_json::Value::Bool(b) => Node::Bool(b),
        serde_json::Value::Number(n) => Node::Number(n),
        serde_json::Value::String(s) => Node::String(s),
        serde_json::Value::Array(items) => Node::Array(items),
        serde_json::Value::Object(entries) => Node::Object(entries.into_iter().collect()),
    }
}

/// Builds a `serde_json::Value` from its parts, whose members have distinct names: the
/// value holds what the node held.
#[verifier::external_body]
fn close_value(node: Node) -> (value: serde_json::Value)
    requires
        node matches Node::Object(entries) ==> distinct_names(entries@),
    ensures
        value_content(value) == node@,
{
    match node {
        Node::Null => serde_json::Value::Null,
        Node::Bool(b) => serde_json::Value::Bool(b),
        Node::Number(n) => serde_json::Value::Number(n),
        Node::String(s) => serde_json::Value::String(s),
        Node::Array(items) => serde_json::Value::Array(items),
        Node::Object(entries) => serde_json::Value::Object(entries.into_iter().collect()),
    }
}

/// Wraps `serde_json::from_str`: whether it succeeds, and what the parsed value
/// holds, is a function of the text alone. The text of the error is dropped.
#[verifier::external_body]
fn value_from_str(text: &str) -> (r: Option<serde_json::Value>)
    ensures
        match r {
            Some(value) => json_of_text(text@) == Some(value_content(value)),
            None => json_of_text(text@) is None,
        },
{
    serde_json::from_str(text).ok()
}

/// Wraps `serde_json::to_string`: the text is a function of what the value holds. A
/// `serde_json::Map` keeps its members in the order of their names, so the order in
/// which they came does not matter. Writing fails only for a type that refuses to be
/// written or a map whose keys are no strings; a `serde_json::Value` is neither.
#[verifier::external_body]
fn value_to_string(value: &serde_json::Value) -> (r: String)
    ensures
        r@ == json_text(value_content(*value)),
{
    serde_json::to_string(value).expect("a JSON value can be written")
}

/// Wraps `serde_json::Number::as_u64`: the number where it is an integer from
/// 0 to `u64::MAX`.
#[verifier::external_body]
fn number_as_u64(number: &serde_json::Number) -> (r: Option<u64>)
    ensures
        r == number_natural(*number),
{
    number.as_u64()
}

/// Wraps `Clone::clone` of `serde_json::Number`: the same number.
#[verifier::external_body]
fn number_clone(number: &serde_json::Number) -> (r: serde_json::Number)
    ensures
        r == *number,
{
    number.clone()
}

impl JsonView {
    /// The member of an object with the given name.
    pub open spec fn get(self, key: Seq<char>) -> Option<JsonView> {
        match self {
            JsonView::Object(m) => if m.contains_key(key) {
                Some(m[key])
            } else {
                None
            },
            _ => None,
        }
    }

    /// The text of a string value.
    pub open spec fn as_str(self) -> Option<Seq<char>> {
        match self {
            JsonView::String(s) => Some(s),
            _ => None,
        }
    }

    /// The items of an array.
    pub open spec fn as_array(self) -> Option<Seq<JsonView>> {
        match self {
            JsonView::Array(items) => Some(items),
            _ => None,
        }
    }

    /// The number where it is an integer from 0 to `u32::MAX`.
    pub open spec fn as_u32(self) -> Option<u32> {
        match self {
            JsonView::Number(n) => match number_natural(n) {
                Some(k) => if k <= u32::MAX {
                    Some(k as u32)
                } else {
                    None
                },
                None => None,
            },
            _ => None,
        }
    }
}

/// Where the names are distinct, every entry is a member.
proof fn lemma_member(entries: Seq<(String, serde_json::Value)>, k: int)
    requires
        0 <= k < entries.len(),
        distinct_names(entries),
    ensures
        entry_contents(entries).dom().finite(),
        entry_contents(entries).contains_key(entries[k].0@),
        entry_contents(entries)[entries[k].0@] == value_content(entries[k].1),
    decreases entries.len(),
{
    let front = entries.drop_last();
    assert(entries[entries.len() - 1] == entries.last());
    assert forall|i: int, j: int| 0 <= i < j < front.len() implies (#[trigger] front[i]).0@ != (
    #[trigger] front[j]).0@ by {
        assert(entries[i].0@ != entries[j].0@);
    }
    if k < front.len() {
        lemma_member(front, k);
        assert(front[k] == entries[k]);
        assert(entries[k].0@ != entries[entries.len() - 1].0@);
    } else if front.len() > 0 {
        lemma_member(front, 0);
    } else {
        assert(entry_contents(front) == Map::<Seq<char>, JsonView>::empty());
    }
}

/// A member list names a member exactly where one of its entries has the name.
proof fn lemma_entries_key(entries: Seq<(String, Json)>, key: Seq<char>)
    ensures
        entries_view(entries).contains_key(key) <==> exists|i: int|
            0 <= i < entries.len() && (#[trigger] entries[i]).0@ == key,
    decreases entries.len(),
{
    if entries.len() > 0 {
        let front = entries.drop_last();
        lemma_entries_key(front, key);
        if entries_view(front).contains_key(key) {
            let i = choose|i: int| 0 <= i < front.len() && (#[trigger] front[i]).0@ == key;
            assert(entries[i].0@ == key);
        }
        if exists|i: int| 0 <= i < entries.len() && (#[trigger] entries[i]).0@ == key {
            let i = choose|i: int| 0 <= i < entries.len() && (#[trigger] entries[i]).0@ == key;
            if i < front.len() {
                assert(front[i].0@ == key);
            }
        }
        assert(entries[entries.len() - 1] == entries.last());
    }
}

/// The last entry with a name gives the member of that name.
proof fn lemma_entries_last(entries: Seq<(String, Json)>, k: int)
    requires
        0 <= k < entries.len(),
        forall|i: int| k < i < entries.len() ==> (#[trigger] entries[i]).0@ != entries[k].0@,
    ensures
        entries_view(entries).contains_key(entries[k].0@),
        entries_view(entries)[entries[k].0@] == entries[k].1.view(),
    decreases entries.len(),
{
    if k < entries.len() - 1 {
        let front = entries.drop_last();
        assert(front[k] == entries[k]);
        assert forall|i: int| k < i < front.len() implies (#[trigger] front[i]).0@
            != front[k].0@ by {
            assert(front[i] == entries[i]);
        }
        lemma_entries_last(front, k);
        assert(entries[entries.len() - 1] == entries.last());
    }
}

/// An entry in front counts only where no other one has its name.
proof fn lemma_entries_front(entries: Seq<(String, Json)>)
    requires
        entries.len() > 0,
    ensures
        ({
            let rest = entries_view(entries.drop_first());
            entries_view(entries) == if rest.contains_key(entries[0].0@) {
                rest
            } else {
                rest.insert(entries[0].0@, entries[0].1.view())
            }
        }),
    decreases entries.len(),
{
    let key = entries[0].0@;
    let rest = entries.drop_first();
    if entries.len() == 1 {
        assert(rest =~= Seq::empty());
        assert(entries.drop_last() =~= Seq::empty());
    } else {
        let front = entries.drop_last();
        lemma_entries_front(front);
        assert(front.drop_first() =~= rest.drop_last());
        assert(rest.last() == entries.last());
        let m = entries_view(rest.drop_last());
        let v = entries[0].1.view();
        let name = entries.last().0@;
        let w = entries.last().1.view();
        assert(front[0] == entries[0]);
        if name == key {
            assert(m.insert(key, v).insert(name, w) =~= m.insert(name, w));
        } else {
            assert(m.insert(key, v).insert(name, w) =~= m.insert(name, w).insert(key, v));
        }
    }
}

/// A list of values names a member exactly where one of its entries has the name.
proof fn lemma_contents_key(entries: Seq<(String, serde_json::Value)>, key: Seq<char>)
    ensures
        entry_contents(entries).contains_key(key) <==> exists|i: int|
            0 <= i < entries.len() && (#[trigger] entries[i]).0@ == key,
    decreases entries.len(),
{
    if entries.len() > 0 {
        let front = entries.drop_last();
        lemma_contents_key(front, key);
        if entry_contents(front).contains_key(key) {
            let i = choose|i: int| 0 <= i < front.len() && (#[trigger] front[i]).0@ == key;
            assert(entries[i].0@ == key);
        }
        if exists|i: int| 0 <= i < entries.len() && (#[trigger] entries[i]).0@ == key {
            let i = choose|i: int| 0 <= i < entries.len() && (#[trigger] entries[i]).0@ == key;
            if i < front.len() {
                assert(front[i].0@ == key);
            }
        }
        assert(entries[entries.len() - 1] == entries.last());
    }
}

/// Whether one of a list of members has a name.
fn has_name(entries: &Vec<(String, serde_json::Value)>, name: &str) -> (r: bool)
    ensures
        r == entry_contents(entries@).contains_key(name@),
        !r ==> forall|i: int| 0 <= i < entries@.len() ==> (#[trigger] entries@[i]).0@ != name@,
{
    let mut i: usize = 0;
    while i < entries.len()
        invariant
            i <= entries@.len(),
            forall|j: int| 0 <= j < i ==> (#[trigger] entries@[j]).0@ != name@,
        decreases entries@.len() - i,
    {
        if same(entries[i].0.as_str(), name) {
            proof {
                assert(entries@[i as int].0@ == name@);
                lemma_contents_key(entries@, name@);
            }
            return true;
        }
        i = i + 1;
    }
    proof {
        lemma_contents_key(entries@, name@);
    }
    false
}

/// Dropping an entry changes no member of another name.
proof fn lemma_entries_remove(entries: Seq<(String, Json)>, k: int)
    requires
        0 <= k < entries.len(),
    ensures
        entries_view(entries.remove(k)).remove(entries[k].0@) == entries_view(entries).remove(
            entries[k].0@,
        ),
    decreases entries.len(),
{
    let key = entries[k].0@;
    let front = entries.drop_last();
    if k == entries.len() - 1 {
        assert(entries.remove(k) =~= front);
        assert(entries_view(front).remove(key) =~= entries_view(entries).remove(key));
    } else {
        lemma_entries_remove(front, k);
        assert(front[k] == entries[k]);
        assert(entries.remove(k).drop_last() =~= front.remove(k));
        assert(entries.remove(k).last() == entries.last());
        assert(entries_view(entries.remove(k)).remove(key) =~= entries_view(entries).remove(key))
            by {
            let l = entries.last().0@;
            let a = entries_view(front.remove(k));
            let b = entries_view(front);
            let v = entries.last().1.view();
            assert(a.remove(key) == b.remove(key));
            assert forall|q: Seq<char>| a.insert(l, v).remove(key).contains_key(q) == b.insert(
                l,
                v,
            ).remove(key).contains_key(q) by {
                assert(a.remove(key).contains_key(q) == b.remove(key).contains_key(q));
            }
            assert forall|q: Seq<char>| a.insert(l, v).remove(key).contains_key(q) implies a.insert(
                l,
                v,
            ).remove(key)[q] == b.insert(l, v).remove(key)[q] by {
                if q != l {
                    assert(a.remove(key)[q] == b.remove(key)[q]);
                }
            }
        }
    }
}

impl Clone for Json {
    fn clone(&self) -> (r: Json)
        ensures
            r@ == self@,
    {
        self.copy()
    }
}

impl Json {
    /// A string value.
    pub fn string(text: &str) -> (r: Json)
        ensures
            r@ == JsonView::String(text@),
    {
        Json::String(text.to_owned())
    }

    /// An object without members.
    pub fn object() -> (r: Json)
        ensures
            r@ == JsonView::Object(Map::empty()),
    {
        Json::Object(Vec::new())
    }

    /// The same value once more.
    fn copy(&self) -> (r: Json)
        ensures
            r@ == self@,
        decreases *self,
    {
        match self {
            Json::Null => Json::Null,
            Json::Bool(b) => Json::Bool(*b),
            Json::Number(n) => Json::Number(number_clone(n)),
            Json::String(s) => Json::String(s.clone()),
            Json::Array(items) => {
                let mut out: Vec<Json> = Vec::new();
                let mut i: usize = 0;
                while i < items.len()
                    invariant
                        i <= items@.len(),
                        out@.len() == i,
                        *self == Json::Array(*items),
                        forall|j: int| 0 <= j < i ==> (#[trigger] out@[j])@ == items@[j]@,
                    decreases items@.len() - i,
                {
                    assert(decreases_to!(*self => self->Array_0));
                    assert(decreases_to!(self->Array_0 => self->Array_0[i as int]));
                    let item = items[i].copy();
                    out.push(item);
                    i = i + 1;
                }
                assert(items_view(out@) =~= items_view(items@));
                Json::Array(out)
            },
            Json::Object(entries) => {
                let mut out: Vec<(String, Json)> = Vec::new();
                let mut i: usize = 0;
                assert(entries_view(entries@.take(0)) =~= entries_view(out@));
                while i < entries.len()
                    invariant
                        i <= entries@.len(),
                        out@.len() == i,
                        *self == Json::Object(*entries),
                        entries_view(out@) == entries_view(entries@.take(i as int)),
                    decreases entries@.len() - i,
                {
                    assert(decreases_to!(*self => self->Object_0));
                    assert(decreases_to!(self->Object_0 => self->Object_0[i as int]));
                    assert(decreases_to!(entries[i as int] => entries[i as int].1));
                    let value = entries[i].1.copy();
                    let ghost before = out@;
                    out.push((entries[i].0.clone(), value));
                    proof {
                        assert(out@.drop_last() =~= before);
                        assert(entries@.take(i + 1).drop_last() =~= entries@.take(i as int));
                    }
                    i = i + 1;
                }
                assert(entries@.take(i as int) =~= entries@);
                Json::Object(out)
            },
        }
    }

    /// The member of an object with the given name.
    pub fn get<'a>(&'a self, key: &str) -> (r: Option<&'a Json>)
        ensures
            match r {
                Some(v) => self@.get(key@) == Some(v@),
                None => self@.get(key@) is None,
            },
    {
        match self {
            Json::Object(entries) => {
                let mut i: usize = entries.len();
                while i > 0
                    invariant
                        i <= entries@.len(),
                        *self == Json::Object(*entries),
                        forall|j: int| i <= j < entries@.len() ==> (#[trigger] entries@[j]).0@
                            != key@,
                    decreases i,
                {
                    i = i - 1;
                    if same(entries[i].0.as_str(), key) {
                        proof {
                            lemma_entries_last(entries@, i as int);
                        }
                        return Some(&entries[i].1);
                    }
                }
                proof {
                    lemma_entries_key(entries@, key@);
                }
                None
            },
            _ => None,
        }
    }

    /// The text of a string value.
    pub fn as_str<'a>(&'a self) -> (r: Option<&'a str>)
        ensures
            match r {
                Some(s) => self@.as_str() == Some(s@),
                None => self@.as_str() is None,
            },
    {
        match self {
            Json::String(s) => Some(s.as_str()),
            _ => None,
        }
    }

    /// The items of an array.
    pub fn as_array<'a>(&'a self) -> (r: Option<&'a Vec<Json>>)
        ensures
            match r {
                Some(items) => self@.as_array() == Some(items_view(items@)),
                None => self@.as_array() is None,
            },
    {
        match self {
            Json::Array(items) => Some(items),
            _ => None,
        }
    }

    /// The number where it is an integer from 0 to `u32::MAX`.
    pub fn as_u32(&self) -> (r: Option<u32>)
        ensures
            r == self@.as_u32(),
    {
        match self {
            Json::Number(n) => match number_as_u64(n) {
                Some(k) => if k <= u32::MAX as u64 {
                    Some(k as u32)
                } else {
                    None
                },
                None => None,
            },
            _ => None,
        }
    }

    /// Takes the member with the given name out of an object. Other values stay
    /// as they are.
    pub fn remove(&mut self, key: &str)
        ensures
            final(self)@ == match old(self)@ {
                JsonView::Object(m) => JsonView::Object(m.remove(key@)),
                other => other,
            },
    {
        match self {
            Json::Object(entries) => {
                let ghost start = entries@;
                let mut i: usize = 0;
                while i < entries.len()
                    invariant
                        i <= entries@.len(),
                        entries_view(entries@).remove(key@) == entries_view(start).remove(key@),
                        forall|j: int| 0 <= j < i ==> (#[trigger] entries@[j]).0@ != key@,
                    decreases entries@.len() - i,
                {
                    if same(entries[i].0.as_str(), key) {
                        proof {
                            lemma_entries_remove(entries@, i as int);
                        }
                        let _ = entries.remove(i);
                    } else {
                        i = i + 1;
                    }
                }
                proof {
                    lemma_entries_key(entries@, key@);
                    assert(entries_view(entries@).remove(key@) =~= entries_view(entries@));
                }
            },
            _ => {},
        }
    }

    /// Sets the member with the given name, as `value[key] = v` does in
    /// `serde_json`: a null becomes an object first.
    pub fn set(&mut self, key: &str, value: Json)
        requires
            old(self)@ is Null || old(self)@ is Object,
        ensures
            final(self)@ == match old(self)@ {
                JsonView::Object(m) => JsonView::Object(m.insert(key@, value@)),
                _ => JsonView::Object(Map::empty().insert(key@, value@)),
            },
    {
        let ghost before = self@;
        self.remove(key);
        let mut taken = Json::Null;
        std::mem::swap(self, &mut taken);
        let mut entries = match taken {
            Json::Object(entries) => entries,
            _ => Vec::new(),
        };
        let ghost start = entries@;
        entries.push((key.to_owned(), value));
        proof {
            assert(entries@.drop_last() =~= start);
            assert(entries_view(entries@) == entries_view(start).insert(key@, value@));
            if before is Object {
                let m = before->Object_0;
                assert(m.remove(key@).insert(key@, value@) =~= m.insert(key@, value@));
            }
        }
        *self = Json::Object(entries);
    }

    /// An object with one member more.
    pub fn with(self, key: &str, value: Json) -> (r: Json)
        requires
            self@ is Object,
        ensures
            r@ == JsonView::Object(self@->Object_0.insert(key@, value@)),
    {
        let mut r = self;
        r.set(key, value);
        r
    }

    /// The value of a `serde_json::Value`.
    pub fn from_value(value: serde_json::Value) -> (r: Json)
        ensures
            r@ == value_content(value),
        decreases value_content(value),
    {
        let ghost whole = value_content(value);
        match open_value(value) {
            Node::Null => Json::Null,
            Node::Bool(b) => Json::Bool(b),
            Node::Number(n) => Json::Number(n),
            Node::String(s) => Json::String(s),
            Node::Array(items) => {
                let ghost all = items@;
                let mut rest = items;
                let mut back: Vec<Json> = Vec::new();
                while rest.len() > 0
                    invariant
                        rest@.len() + back@.len() == all.len(),
                        rest@ == all.take(rest@.len() as int),
                        whole == JsonView::Array(contents(all)),
                        whole == value_content(value),
                        forall|j: int|
                            0 <= j < back@.len() ==> (#[trigger] back@[j])@ == value_content(
                                all[all.len() - 1 - j],
                            ),
                    decreases rest@.len(),
                {
                    let ghost k = rest@.len() - 1;
                    let item = rest.pop().unwrap();
                    proof {
                        assert(item == all[k]);
                        assert(contents(all)[k] == value_content(item));
                        assert(decreases_to!(whole => whole->Array_0));
                        assert(decreases_to!(whole->Array_0 => whole->Array_0[k]));
                    }
                    let json = Json::from_value(item);
                    back.push(json);
                }
                let mut out: Vec<Json> = Vec::new();
                while back.len() > 0
                    invariant
                        out@.len() + back@.len() == all.len(),
                        forall|j: int|
                            0 <= j < back@.len() ==> (#[trigger] back@[j])@ == value_content(
                                all[all.len() - 1 - j],
                            ),
                        forall|j: int|
                            0 <= j < out@.len() ==> (#[trigger] out@[j])@ == value_content(all[j]),
                    decreases back@.len(),
                {
                    let json = back.pop().unwrap();
                    out.push(json);
                }
                assert(items_view(out@) =~= contents(all));
                Json::Array(out)
            },
            Node::Object(entries) => {
                let ghost all = entries@;
                let mut rest = entries;
                let mut back: Vec<(String, Json)> = Vec::new();
                while rest.len() > 0
                    invariant
                        rest@.len() + back@.len() == all.len(),
                        rest@ == all.take(rest@.len() as int),
                        whole == JsonView::Object(entry_contents(all)),
                        whole == value_content(value),
                        distinct_names(all),
                        forall|j: int|
                            0 <= j < back@.len() ==> (#[trigger] back@[j]).0@ == all[all.len() - 1
                                - j].0@ && back@[j].1@ == value_content(all[all.len() - 1 - j].1),
                    decreases rest@.len(),
                {
                    let ghost k = rest@.len() - 1;
                    let (name, item) = rest.pop().unwrap();
                    proof {
                        assert((name, item) == all[k]);
                        lemma_member(all, k);
                        assert(decreases_to!(whole => whole->Object_0));
                        assert(decreases_to!(whole->Object_0 => whole->Object_0[name@]));
                    }
                    let json = Json::from_value(item);
                    back.push((name, json));
                }
                let mut out: Vec<(String, Json)> = Vec::new();
                assert(all.take(0) =~= Seq::empty());
                while back.len() > 0
                    invariant
                        out@.len() + back@.len() == all.len(),
                        forall|j: int|
                            0 <= j < back@.len() ==> (#[trigger] back@[j]).0@ == all[all.len() - 1
                                - j].0@ && back@[j].1@ == value_content(all[all.len() - 1 - j].1),
                        entries_view(out@) == entry_contents(all.take(out@.len() as int)),
                    decreases back@.len(),
                {
                    let ghost before = out@;
                    let entry = back.pop().unwrap();
                    out.push(entry);
                    proof {
                        assert(out@.drop_last() =~= before);
                        assert(all.take(out@.len() as int).drop_last() =~= all.take(
                            before.len() as int,
                        ));
                    }
                }
                assert(all.take(out@.len() as int) =~= all);
                Json::Object(out)
            },
        }
    }

    /// The value as a `serde_json::Value`.
    pub fn to_value(&self) -> (r: serde_json::Value)
        ensures
            value_content(r) == self@,
        decreases *self,
    {
        let node = match self {
            Json::Null => Node::Null,
            Json::Bool(b) => Node::Bool(*b),
            Json::Number(n) => Node::Number(number_clone(n)),
            Json::String(s) => Node::String(s.clone()),
            Json::Array(items) => {
                let mut out: Vec<serde_json::Value> = Vec::new();
                let mut i: usize = 0;
                while i < items.len()
                    invariant
                        i <= items@.len(),
                        out@.len() == i,
                        *self == Json::Array(*items),
                        forall|j: int|
                            0 <= j < i ==> value_content(#[trigger] out@[j]) == items@[j]@,
                    decreases items@.len() - i,
                {
                    assert(decreases_to!(*self => self->Array_0));
                    assert(decreases_to!(self->Array_0 => self->Array_0[i as int]));
                    let item = items[i].to_value();
                    out.push(item);
                    i = i + 1;
                }
                assert(contents(out@) =~= items_view(items@));
                Node::Array(out)
            },
            Json::Object(entries) => {
                let mut out: Vec<(String, serde_json::Value)> = Vec::new();
                let mut i: usize = entries.len();
                assert(entries@.skip(i as int) =~= Seq::empty());
                assert(entry_contents(out@) =~= entries_view(entries@.skip(i as int)));
                while i > 0
                    invariant
                        i <= entries@.len(),
                        *self == Json::Object(*entries),
                        distinct_names(out@),
                        entry_contents(out@) == entries_view(entries@.skip(i as int)),
                    decreases i,
                {
                    let ghost rest = entries@.skip(i as int);
                    i = i - 1;
                    proof {
                        assert(entries@.skip(i as int).drop_first() =~= rest);
                        lemma_entries_front(entries@.skip(i as int));
                    }
                    if !has_name(&out, entries[i].0.as_str()) {
                        assert(decreases_to!(*self => self->Object_0));
                        assert(decreases_to!(self->Object_0 => self->Object_0[i as int]));
                        assert(decreases_to!(entries[i as int] => entries[i as int].1));
                        let value = entries[i].1.to_value();
                        let ghost before = out@;
                        out.push((entries[i].0.clone(), value));
                        assert(out@.drop_last() =~= before);
                    }
                }
                assert(entries@.skip(0) =~= entries@);
                Node::Object(out)
            },
        };
        close_value(node)
    }

    /// The value that a text denotes; `None` where it denotes none.
    pub fn parse(text: &str) -> (r: Option<Json>)
        ensures
            match r {
                Some(v) => json_of_text(text@) == Some(v@),
                None => json_of_text(text@) is None,
            },
    {
        match value_from_str(text) {
            Some(value) => Some(Json::from_value(value)),
            None => None,
        }
    }

    /// The text of a value.
    pub fn to_text(&self) -> (r: String)
        ensures
            r@ == json_text(self@),
    {
        let value = self.to_value();
        value_to_string(&value)
    }
}

} // verus!
