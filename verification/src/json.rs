//! JSON documents as plain values.
use vstd::prelude::*;

use crate::text::same_text;

verus! {

/// A JSON value.
///
/// An object keeps its members in the order they were written. Where a name
/// is repeated, the first member of that name is the one that is read.
#[derive(Debug, PartialEq, Eq)]
pub enum Json {
    /// `null`.
    Null,
    /// `true` or `false`.
    Bool(bool),
    /// A number, in its written form.
    Number(String),
    /// A string.
    Text(String),
    /// An array.
    Array(Vec<Json>),
    /// An object.
    Object(Vec<(String, Json)>),
}

/// What a JSON value says.
pub enum JsonView {
    /// `null`.
    Null,
    /// `true` or `false`.
    Bool(bool),
    /// A number, in its written form.
    Number(Seq<char>),
    /// A string.
    Text(Seq<char>),
    /// An array.
    Array(Seq<JsonView>),
    /// An object.
    Object(Seq<(Seq<char>, JsonView)>),
}

/// What a JSON value says.
pub open spec fn said(json: Json) -> JsonView
    decreases json,
{
    match json {
        Json::Null => JsonView::Null,
        Json::Bool(flag) => JsonView::Bool(flag),
        Json::Number(text) => JsonView::Number(text@),
        Json::Text(text) => JsonView::Text(text@),
        Json::Array(items) => JsonView::Array(
            Seq::new(
                items@.len(),
                |i: int|
                    if 0 <= i < items@.len() {
                        said(items@[i])
                    } else {
                        JsonView::Null
                    },
            ),
        ),
        Json::Object(members) => JsonView::Object(
            Seq::new(
                members@.len(),
                |i: int|
                    if 0 <= i < members@.len() {
                        (members@[i].0@, said(members@[i].1))
                    } else {
                        (Seq::empty(), JsonView::Null)
                    },
            ),
        ),
    }
}

impl View for Json {
    type V = JsonView;

    open spec fn view(&self) -> JsonView {
        said(*self)
    }
}

/// What a list of values says.
pub open spec fn items_said(items: Seq<Json>) -> Seq<JsonView> {
    items.map_values(|item: Json| item@)
}

/// What a list of members says.
pub open spec fn members_said(members: Seq<(String, Json)>) -> Seq<(Seq<char>, JsonView)> {
    members.map_values(|entry: (String, Json)| (entry.0@, entry.1@))
}

/// An array says what its items say.
pub proof fn lemma_array(items: Vec<Json>)
    ensures
        Json::Array(items)@ == JsonView::Array(items_said(items@)),
{
    match Json::Array(items)@ {
        JsonView::Array(said_items) => {
            assert(said_items =~= items_said(items@));
        },
        _ => {},
    }
}

/// An object says what its members say.
pub proof fn lemma_object(members: Vec<(String, Json)>)
    ensures
        Json::Object(members)@ == JsonView::Object(members_said(members@)),
{
    match Json::Object(members)@ {
        JsonView::Object(said_members) => {
            assert(said_members =~= members_said(members@));
        },
        _ => {},
    }
}

/// Where the first member called `name` stands, if there is one.
pub open spec fn member_at(members: Seq<(Seq<char>, JsonView)>, name: Seq<char>) -> Option<int>
    decreases members.len(),
{
    if members.len() == 0 {
        None
    } else if members[0].0 == name {
        Some(0int)
    } else {
        match member_at(members.drop_first(), name) {
            Some(at) => Some(at + 1),
            None => None,
        }
    }
}

/// The member of a document called `name`: `None` where the document is no
/// object or has no such member.
pub open spec fn member(document: JsonView, name: Seq<char>) -> Option<JsonView> {
    match document {
        JsonView::Object(members) => match member_at(members, name) {
            Some(at) => Some(members[at].1),
            None => None,
        },
        _ => None,
    }
}

/// The text of a document's member, where there is one and it is a string.
pub open spec fn text_member(document: JsonView, name: Seq<char>) -> Option<Seq<char>> {
    match member(document, name) {
        Some(JsonView::Text(text)) => Some(text),
        _ => None,
    }
}

/// Whether a document's member is `true`.
pub open spec fn flag_member(document: JsonView, name: Seq<char>) -> bool {
    member(document, name) == Some(JsonView::Bool(true))
}

/// The items of a document's member: none where there is no such member or it
/// is no array.
pub open spec fn list_member(document: JsonView, name: Seq<char>) -> Seq<JsonView> {
    match member(document, name) {
        Some(JsonView::Array(items)) => items,
        _ => Seq::empty(),
    }
}

/// The strings of an array, in order; what is no string is passed over.
pub open spec fn strings_of(items: Seq<JsonView>) -> Seq<Seq<char>>
    decreases items.len(),
{
    if items.len() == 0 {
        Seq::empty()
    } else {
        match items.last() {
            JsonView::Text(text) => strings_of(items.drop_last()).push(text),
            _ => strings_of(items.drop_last()),
        }
    }
}

/// A member that is there stands inside the object, under its name, and is
/// the first of that name.
pub proof fn lemma_member_at(members: Seq<(Seq<char>, JsonView)>, name: Seq<char>)
    ensures
        match member_at(members, name) {
            Some(at) => 0 <= at < members.len() && members[at].0 == name && forall|i: int|
                0 <= i < at ==> (#[trigger] members[i]).0 != name,
            None => forall|i: int| 0 <= i < members.len() ==> (#[trigger] members[i]).0 != name,
        },
    decreases members.len(),
{
    if members.len() > 0 && members[0].0 != name {
        let tail = members.drop_first();
        lemma_member_at(tail, name);
        let bound = match member_at(tail, name) {
            Some(at) => at + 1,
            None => members.len() as int,
        };
        assert forall|i: int| 0 <= i < bound implies (#[trigger] members[i]).0 != name by {
            if i > 0 {
                assert(members[i] == tail[i - 1]);
            }
        }
    }
}

/// The member of a name is the first of that name, and there is none exactly
/// where the document is no object or no member has the name.
pub proof fn a_member_is_the_first_of_its_name(document: JsonView, name: Seq<char>)
    ensures
        match document {
            JsonView::Object(members) => match member(document, name) {
                Some(value) => exists|at: int|
                    0 <= at < members.len() && (#[trigger] members[at]) == (name, value) && forall|
                        i: int,
                    |
                        0 <= i < at ==> (#[trigger] members[i]).0 != name,
                None => forall|i: int| 0 <= i < members.len() ==> (#[trigger] members[i]).0 != name,
            },
            _ => member(document, name) is None,
        },
{
    match document {
        JsonView::Object(members) => {
            lemma_member_at(members, name);
        },
        _ => {},
    }
}

/// The strings of an array are its strings, every one of them and nothing else,
/// in the order in which they stand.
pub proof fn strings_are_kept_in_order(items: Seq<JsonView>) -> (picked: Seq<int>)
    ensures
        crate::order::in_order(picked, items.len() as int, |i: int| items[i] is Text),
        strings_of(items).len() == picked.len(),
        forall|k: int|
            0 <= k < picked.len() ==> items[picked[k]] == JsonView::Text(
                #[trigger] strings_of(items)[k],
            ),
    decreases items.len(),
{
    if items.len() == 0 {
        Seq::empty()
    } else {
        let shorter = items.drop_last();
        let n = shorter.len() as int;
        let before = strings_are_kept_in_order(shorter);
        let fewer = |i: int| shorter[i] is Text;
        let keep = |i: int| items[i] is Text;
        assert forall|i: int| 0 <= i < n implies #[trigger] fewer(i) == keep(i) by {
            assert(shorter[i] == items[i]);
        }
        crate::order::lemma_one_more(before, n, fewer, keep);
        assert(items.last() == items[n]);
        let earlier = strings_of(shorter);
        let all = strings_of(items);
        let picked = if keep(n) {
            before.push(n)
        } else {
            before
        };
        assert forall|k: int| 0 <= k < picked.len() implies items[picked[k]] == JsonView::Text(
            #[trigger] all[k],
        ) by {
            if k < before.len() {
                assert(all[k] == earlier[k]);
                assert(0 <= before[k] < n);
                assert(shorter[before[k]] == items[before[k]]);
            }
        }
        picked
    }
}

impl Clone for Json {
    fn clone(&self) -> (r: Json)
        ensures
            r@ == self@,
    {
        self.copy()
    }
}

impl Json {
    /// The same value again.
    fn copy(&self) -> (r: Json)
        ensures
            r@ == self@,
        decreases *self,
    {
        match self {
            Json::Null => Json::Null,
            Json::Bool(flag) => Json::Bool(*flag),
            Json::Number(text) => Json::Number(text.clone()),
            Json::Text(text) => Json::Text(text.clone()),
            Json::Array(items) => {
                let mut copied: Vec<Json> = Vec::new();
                let mut at: usize = 0;
                while at < items.len()
                    invariant
                        *self == Json::Array(*items),
                        at <= items@.len(),
                        copied@.len() == at,
                        forall|i: int| 0 <= i < at ==> (#[trigger] copied@[i])@ == items@[i]@,
                    decreases items@.len() - at,
                {
                    proof {
                        assert(decreases_to!(*items => items[at as int]));
                        assert(decreases_to!(*self => self->Array_0));
                    }
                    copied.push(items[at].copy());
                    at += 1;
                }
                proof {
                    lemma_array(*items);
                    lemma_array(copied);
                    assert(items_said(copied@) =~= items_said(items@));
                }
                Json::Array(copied)
            },
            Json::Object(members) => {
                let mut copied: Vec<(String, Json)> = Vec::new();
                let mut at: usize = 0;
                while at < members.len()
                    invariant
                        *self == Json::Object(*members),
                        at <= members@.len(),
                        copied@.len() == at,
                        forall|i: int|
                            0 <= i < at ==> (#[trigger] copied@[i]).0@ == members@[i].0@
                                && copied@[i].1@ == members@[i].1@,
                    decreases members@.len() - at,
                {
                    proof {
                        assert(decreases_to!(*members => members[at as int]));
                        assert(decreases_to!(members[at as int] => members[at as int].1));
                        assert(decreases_to!(*self => self->Object_0));
                    }
                    let entry = &members[at];
                    copied.push((entry.0.clone(), entry.1.copy()));
                    at += 1;
                }
                proof {
                    lemma_object(*members);
                    lemma_object(copied);
                    assert(members_said(copied@) =~= members_said(members@));
                }
                Json::Object(copied)
            },
        }
    }

    /// A string value.
    pub fn text(text: &str) -> (r: Json)
        ensures
            r@ == JsonView::Text(text@),
    {
        Json::Text(text.to_owned())
    }

    /// An array.
    pub fn array(items: Vec<Json>) -> (r: Json)
        ensures
            r@ == JsonView::Array(items_said(items@)),
    {
        proof {
            lemma_array(items);
        }
        Json::Array(items)
    }

    /// An object.
    pub fn object(members: Vec<(String, Json)>) -> (r: Json)
        ensures
            r@ == JsonView::Object(members_said(members@)),
    {
        proof {
            lemma_object(members);
        }
        Json::Object(members)
    }

    /// The member called `name`, where this is an object that has one.
    pub fn get(&self, name: &str) -> (r: Option<&Json>)
        ensures
            match r {
                Some(value) => member(self@, name@) == Some(value@),
                None => member(self@, name@) is None,
            },
    {
        match self {
            Json::Object(members) => {
                let ghost listed = members_said(members@);
                proof {
                    lemma_object(*members);
                    lemma_member_at(listed, name@);
                }
                let mut at: usize = 0;
                while at < members.len()
                    invariant
                        listed == members_said(members@),
                        self@ == JsonView::Object(listed),
                        at <= members@.len(),
                        forall|i: int| 0 <= i < at ==> (#[trigger] listed[i]).0 != name@,
                        match member_at(listed, name@) {
                            Some(found) => 0 <= found < listed.len() && listed[found].0 == name@
                                && forall|i: int|
                                0 <= i < found ==> (#[trigger] listed[i]).0 != name@,
                            None => forall|i: int|
                                0 <= i < listed.len() ==> (#[trigger] listed[i]).0 != name@,
                        },
                    decreases members@.len() - at,
                {
                    assert(listed[at as int] == (members@[at as int].0@, members@[at as int].1@));
                    if same_text(members[at].0.as_str(), name) {
                        return Some(&members[at].1);
                    }
                    at += 1;
                }
                None
            },
            _ => None,
        }
    }

    /// The text of the member called `name`, where it is a string.
    pub fn get_text(&self, name: &str) -> (r: Option<&String>)
        ensures
            match r {
                Some(text) => text_member(self@, name@) == Some(text@),
                None => text_member(self@, name@) is None,
            },
    {
        match self.get(name) {
            Some(Json::Text(text)) => Some(text),
            _ => None,
        }
    }

    /// Whether the member called `name` is `true`.
    pub fn get_flag(&self, name: &str) -> (r: bool)
        ensures
            r == flag_member(self@, name@),
    {
        match self.get(name) {
            Some(Json::Bool(flag)) => *flag,
            _ => false,
        }
    }

    /// The items of the member called `name`, where it is an array.
    pub fn get_list(&self, name: &str) -> (r: Option<&Vec<Json>>)
        ensures
            match r {
                Some(items) => list_member(self@, name@) == items_said(items@),
                None => list_member(self@, name@) == Seq::<JsonView>::empty(),
            },
    {
        match self.get(name) {
            Some(Json::Array(items)) => {
                proof {
                    lemma_array(*items);
                }
                Some(items)
            },
            _ => None,
        }
    }

    /// The text of a string value.
    pub fn as_str(&self) -> (r: Option<&str>)
        ensures
            match r {
                Some(text) => self@ == JsonView::Text(text@),
                None => !(self@ is Text),
            },
    {
        match self {
            Json::Text(text) => Some(text.as_str()),
            _ => None,
        }
    }
}

} // verus!
