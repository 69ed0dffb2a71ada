//! JSON values as the client's settings and listings hold them.
//!
//! The client reads and writes JSON text outside this library. What it
//! decides about a JSON value it decides here, on a value of this module's
//! own type.

use vstd::prelude::*;
use crate::text::same_text;

verus! {

/// A JSON value. An object is the list of its members, in order; a member
/// is found by the first entry with its name. A number is an integer where
/// it fits one, and otherwise the text that writes it.
#[derive(Debug)]
pub enum Json {
    Null,
    Bool(bool),
    Integer(i64),
    Number(String),
    Text(String),
    Array(Vec<Json>),
    Object(Vec<(String, Json)>),
}

/// Mathematical value of a [`Json`].
#[verifier::ext_equal]
pub enum JsonView {
    Null,
    Bool(bool),
    Integer(i64),
    Number(Seq<char>),
    Text(Seq<char>),
    Array(Seq<JsonView>),
    Object(Seq<(Seq<char>, JsonView)>),
}

impl View for Json {
    type V = JsonView;

    open spec fn view(&self) -> JsonView
        decreases self,
    {
        match self {
            Json::Null => JsonView::Null,
            Json::Bool(b) => JsonView::Bool(*b),
            Json::Integer(n) => JsonView::Integer(*n),
            Json::Number(n) => JsonView::Number(n@),
            Json::Text(t) => JsonView::Text(t@),
            Json::Array(items) => JsonView::Array(
                Seq::new(
                    items.len() as nat,
                    |i: int|
                        if 0 <= i < items.len() {
                            items[i].view()
                        } else {
                            JsonView::Null
                        },
                ),
            ),
            Json::Object(members) => JsonView::Object(
                Seq::new(
                    members.len() as nat,
                    |i: int|
                        if 0 <= i < members.len() {
                            (members[i].0@, members[i].1.view())
                        } else {
                            (Seq::empty(), JsonView::Null)
                        },
                ),
            ),
        }
    }
}

/// The views of a list of values.
pub open spec fn item_views(items: Seq<Json>) -> Seq<JsonView> {
    Seq::new(items.len(), |i: int| items[i]@)
}

/// The views of a list of members.
pub open spec fn member_views(members: Seq<(String, Json)>) -> Seq<(Seq<char>, JsonView)> {
    Seq::new(members.len(), |i: int| (members[i].0@, members[i].1@))
}

/// The view of an array is the array of the views of its items.
pub proof fn lemma_array_view(items: Vec<Json>)
    ensures
        Json::Array(items)@ == JsonView::Array(item_views(items@)),
{
    reveal_with_fuel(<Json as View>::view, 2);
    let value = Json::Array(items);
    let made = value@->Array_0;
    let views = item_views(items@);
    assert(made.len() == views.len());
    assert forall|j: int| 0 <= j < made.len() implies made[j] == views[j] by {
        assert(made[j] == items[j]@);
    }
    assert(made =~= views);
}

/// The view of an object is the object of the views of its members.
pub proof fn lemma_object_view(members: Vec<(String, Json)>)
    ensures
        Json::Object(members)@ == JsonView::Object(member_views(members@)),
{
    reveal_with_fuel(<Json as View>::view, 2);
    let value = Json::Object(members);
    let made = value@->Object_0;
    let views = member_views(members@);
    assert(made.len() == views.len());
    assert forall|j: int| 0 <= j < made.len() implies made[j] == views[j] by {
        assert(made[j] == (members[j].0@, members[j].1@));
    }
    assert(made =~= views);
}

impl Clone for Json {
    #[verifier::loop_isolation(false)]
    fn clone(&self) -> (copy: Self)
        ensures
            copy@ == self@,
        decreases self,
    {
        match self {
            Json::Null => Json::Null,
            Json::Bool(b) => Json::Bool(*b),
            Json::Integer(n) => Json::Integer(*n),
            Json::Number(n) => Json::Number(n.clone()),
            Json::Text(t) => Json::Text(t.clone()),
            Json::Array(items) => {
                let mut copy: Vec<Json> = Vec::new();
                let mut i: usize = 0;
                while i < items.len()
                    invariant
                        i <= items.len(),
                        copy.len() == i,
                        forall|j: int| 0 <= j < i ==> copy[j]@ == items[j]@,
                    decreases items.len() - i,
                {
                    copy.push(items[i].clone());
                    i += 1;
                }
                proof {
                    lemma_array_view(copy);
                    lemma_array_view(*items);
                    assert(item_views(copy@) =~= item_views(items@));
                }
                Json::Array(copy)
            },
            Json::Object(members) => {
                let mut copy: Vec<(String, Json)> = Vec::new();
                let mut i: usize = 0;
                while i < members.len()
                    invariant
                        i <= members.len(),
                        copy.len() == i,
                        forall|j: int|
                            0 <= j < i ==> copy[j].0@ == members[j].0@ && copy[j].1@
                                == members[j].1@,
                    decreases members.len() - i,
                {
                    copy.push((members[i].0.clone(), members[i].1.clone()));
                    i += 1;
                }
                proof {
                    lemma_object_view(copy);
                    lemma_object_view(*members);
                    assert(member_views(copy@) =~= member_views(members@));
                }
                Json::Object(copy)
            },
        }
    }
}

/// Position of the first member with the name `key`, or the number of
/// members where none has it.
pub open spec fn member_index(members: Seq<(Seq<char>, JsonView)>, key: Seq<char>) -> int
    decreases members.len(),
{
    if members.len() == 0 {
        0
    } else if members[0].0 == key {
        0
    } else {
        1 + member_index(members.drop_first(), key)
    }
}

/// `member_index` is the position of the first member of that name.
pub proof fn lemma_member_index(members: Seq<(Seq<char>, JsonView)>, key: Seq<char>)
    ensures
        0 <= member_index(members, key) <= members.len(),
        forall|i: int| 0 <= i < member_index(members, key) ==> (#[trigger] members[i]).0 != key,
        member_index(members, key) < members.len() ==> members[member_index(members, key)].0
            == key,
    decreases members.len(),
{
    if members.len() > 0 && members[0].0 != key {
        let rest = members.drop_first();
        lemma_member_index(rest, key);
        assert forall|i: int| 0 <= i < member_index(members, key) implies (
        #[trigger] members[i]).0 != key by {
            if i > 0 {
                assert(rest[i - 1] == members[i]);
            }
        }
    }
}

proof fn lemma_member_index_is(members: Seq<(Seq<char>, JsonView)>, key: Seq<char>, n: int)
    requires
        0 <= n <= members.len(),
        forall|i: int| 0 <= i < n ==> (#[trigger] members[i]).0 != key,
        n < members.len() ==> members[n].0 == key,
    ensures
        member_index(members, key) == n,
{
    lemma_member_index(members, key);
}

/// The value of the member `key` of an object; `None` for a value that is
/// no object or has no such member.
pub open spec fn member(v: JsonView, key: Seq<char>) -> Option<JsonView> {
    match v {
        JsonView::Object(members) => {
            let i = member_index(members, key);
            if 0 <= i < members.len() {
                Some(members[i].1)
            } else {
                None
            }
        },
        _ => None,
    }
}

/// The object with the member `key` set to `value`: in the place of the
/// member where the object has one, at the end where it has none. A value
/// that is no object stays as it is.
pub open spec fn with_member(v: JsonView, key: Seq<char>, value: JsonView) -> JsonView {
    match v {
        JsonView::Object(members) => {
            let i = member_index(members, key);
            JsonView::Object(
                if 0 <= i < members.len() {
                    members.update(i, (key, value))
                } else {
                    members.push((key, value))
                },
            )
        },
        _ => v,
    }
}

/// The text of a value that is a string.
pub open spec fn text_of(v: Option<JsonView>) -> Option<Seq<char>> {
    match v {
        Some(JsonView::Text(t)) => Some(t),
        _ => None,
    }
}

/// The items of a value that is an array.
pub open spec fn items_of(v: Option<JsonView>) -> Option<Seq<JsonView>> {
    match v {
        Some(JsonView::Array(items)) => Some(items),
        _ => None,
    }
}

/// The view of an optional value.
pub open spec fn opt_json(v: Option<&Json>) -> Option<JsonView> {
    match v {
        Some(j) => Some(j@),
        None => None,
    }
}

fn find_member(members: &Vec<(String, Json)>, key: &str) -> (n: usize)
    ensures
        n == member_index(member_views(members@), key@),
        n <= members.len(),
{
    let mut n: usize = 0;
    while n < members.len() && !same_text(members[n].0.as_str(), key)
        invariant
            n <= members.len(),
            forall|i: int| 0 <= i < n ==> (#[trigger] member_views(members@)[i]).0 != key@,
        decreases members.len() - n,
    {
        n += 1;
    }
    proof {
        lemma_member_index_is(member_views(members@), key@, n as int);
    }
    n
}

impl Json {
    /// The member `key` of an object.
    pub fn get(&self, key: &str) -> (r: Option<&Json>)
        ensures
            opt_json(r) == member(self@, key@),
    {
        match self {
            Json::Object(members) => {
                proof {
                    lemma_object_view(*members);
                }
                let n = find_member(members, key);
                if n < members.len() {
                    Some(&members[n].1)
                } else {
                    None
                }
            },
            _ => None,
        }
    }

    /// The text of a string.
    pub fn as_str(&self) -> (r: Option<&str>)
        ensures
            match r {
                Some(t) => text_of(Some(self@)) == Some(t@),
                None => text_of(Some(self@)) is None,
            },
    {
        match self {
            Json::Text(t) => Some(t.as_str()),
            _ => None,
        }
    }

    /// Whether the value is an object.
    pub fn is_object(&self) -> (r: bool)
        ensures
            r == (self@ is Object),
    {
        matches!(self, Json::Object(_))
    }

    /// Sets the member `key` of an object to `value`.
    pub fn insert(self, key: &str, value: Json) -> (r: Json)
        ensures
            r@ == with_member(self@, key@, value@),
    {
        match self {
            Json::Object(mut members) => {
                let ghost before = member_views(members@);
                proof {
                    lemma_object_view(members);
                }
                let n = find_member(&members, key);
                if n < members.len() {
                    members.set(n, (String::from_str(key), value));
                    proof {
                        lemma_object_view(members);
                        assert(member_views(members@) =~= before.update(n as int, (key@, value@)));
                    }
                } else {
                    members.push((String::from_str(key), value));
                    proof {
                        lemma_object_view(members);
                        assert(member_views(members@) =~= before.push((key@, value@)));
                    }
                }
                Json::Object(members)
            },
            other => other,
        }
    }
}


impl Json {
    /// The array of `items`.
    pub fn array(items: Vec<Json>) -> (r: Json)
        ensures
            r@ == JsonView::Array(item_views(items@)),
    {
        proof {
            lemma_array_view(items);
        }
        Json::Array(items)
    }

    /// The items of an array.
    pub fn as_array(&self) -> (r: Option<&Vec<Json>>)
        ensures
            match r {
                Some(items) => self@ == JsonView::Array(item_views(items@)),
                None => !(self@ is Array),
            },
    {
        match self {
            Json::Array(items) => {
                proof {
                    lemma_array_view(*items);
                }
                Some(items)
            },
            _ => None,
        }
    }

    /// The text of the member `key`, where the member is a string.
    pub fn get_str(&self, key: &str) -> (r: Option<&str>)
        ensures
            match r {
                Some(t) => text_of(member(self@, key@)) == Some(t@),
                None => text_of(member(self@, key@)) is None,
            },
    {
        match self.get(key) {
            Some(value) => value.as_str(),
            None => None,
        }
    }
}

} // verus!
