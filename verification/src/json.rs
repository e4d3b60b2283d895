//! JSON documents as plain values.

use vstd::prelude::*;

use crate::text::text_eq;

verus! {

/// A JSON document.
#[derive(Debug)]
pub enum Json {
    Null,
    Bool(bool),
    /// A number that is an integer from zero to the largest `u64`.
    Unsigned(u64),
    /// Any other number, as it is written.
    Number(String),
    Text(String),
    List(Vec<Json>),
    /// The members in the order in which they are written.
    Object(Vec<Member>),
}

/// A member of a JSON object.
#[derive(Debug)]
pub struct Member {
    pub name: String,
    pub value: Json,
}

/// The content of a [`Json`].
#[verifier::ext_equal]
pub enum JsonView {
    Null,
    Bool(bool),
    Unsigned(u64),
    Number(Seq<char>),
    Text(Seq<char>),
    List(Seq<JsonView>),
    Object(Seq<(Seq<char>, JsonView)>),
}

impl Json {
    /// The content of a document.
    pub open spec fn content(self) -> JsonView
        decreases self,
    {
        match self {
            Json::Null => JsonView::Null,
            Json::Bool(b) => JsonView::Bool(b),
            Json::Unsigned(n) => JsonView::Unsigned(n),
            Json::Number(s) => JsonView::Number(s@),
            Json::Text(s) => JsonView::Text(s@),
            Json::List(items) => JsonView::List(items_content(items@)),
            Json::Object(members) => JsonView::Object(members_content(members@)),
        }
    }
}

/// The content of the items of a list.
pub open spec fn items_content(items: Seq<Json>) -> Seq<JsonView>
    decreases items,
{
    if items.len() == 0 {
        seq![]
    } else {
        items_content(items.drop_last()).push(items.last().content())
    }
}

/// The content of the members of an object.
pub open spec fn members_content(members: Seq<Member>) -> Seq<(Seq<char>, JsonView)>
    decreases members,
{
    if members.len() == 0 {
        seq![]
    } else {
        members_content(members.drop_last()).push(
            (members.last().name@, members.last().value.content()),
        )
    }
}

impl View for Json {
    type V = JsonView;

    open spec fn view(&self) -> JsonView {
        self.content()
    }
}

/// The value of the first member with a name.
pub open spec fn lookup(members: Seq<(Seq<char>, JsonView)>, name: Seq<char>) -> Option<JsonView>
    decreases members.len(),
{
    if members.len() == 0 {
        None
    } else if members[0].0 == name {
        Some(members[0].1)
    } else {
        lookup(members.skip(1), name)
    }
}

impl JsonView {
    /// The value of a member, where the document is an object that has it.
    pub open spec fn get(self, name: Seq<char>) -> Option<JsonView> {
        match self {
            JsonView::Object(members) => lookup(members, name),
            _ => None,
        }
    }

    pub open spec fn as_str(self) -> Option<Seq<char>> {
        match self {
            JsonView::Text(s) => Some(s),
            _ => None,
        }
    }

    pub open spec fn as_bool(self) -> Option<bool> {
        match self {
            JsonView::Bool(b) => Some(b),
            _ => None,
        }
    }

    pub open spec fn as_u64(self) -> Option<u64> {
        match self {
            JsonView::Unsigned(n) => Some(n),
            _ => None,
        }
    }

    pub open spec fn as_array(self) -> Option<Seq<JsonView>> {
        match self {
            JsonView::List(items) => Some(items),
            _ => None,
        }
    }

    /// The string member with a name.
    pub open spec fn text(self, name: Seq<char>) -> Option<Seq<char>> {
        match self.get(name) {
            Some(value) => value.as_str(),
            None => None,
        }
    }

    /// The boolean member with a name.
    pub open spec fn flag(self, name: Seq<char>) -> Option<bool> {
        match self.get(name) {
            Some(value) => value.as_bool(),
            None => None,
        }
    }

    /// The member `inner` of the member `outer`.
    pub open spec fn nested(self, outer: Seq<char>, inner: Seq<char>) -> Option<JsonView> {
        match self.get(outer) {
            Some(value) => value.get(inner),
            None => None,
        }
    }
}

/// `members` with `value` under `name`: in the place of the member that had the name, or at the
/// end.
pub open spec fn spec_put(
    members: Seq<(Seq<char>, JsonView)>,
    name: Seq<char>,
    value: JsonView,
) -> Seq<(Seq<char>, JsonView)>
    decreases members.len(),
{
    if members.len() == 0 {
        seq![(name, value)]
    } else if members[0].0 == name {
        seq![(name, value)] + members.skip(1)
    } else {
        seq![members[0]] + spec_put(members.skip(1), name, value)
    }
}

/// After `spec_put` the name has the value, and every other name has what it had.
pub proof fn lemma_put(members: Seq<(Seq<char>, JsonView)>, name: Seq<char>, value: JsonView)
    ensures
        lookup(spec_put(members, name, value), name) == Some(value),
        forall|other: Seq<char>|
            other != name ==> #[trigger] lookup(spec_put(members, name, value), other) == lookup(
                members,
                other,
            ),
    decreases members.len(),
{
    let put = spec_put(members, name, value);
    if members.len() == 0 {
        assert(put.skip(1) =~= members);
    } else if members[0].0 == name {
        assert(put.skip(1) =~= members.skip(1));
    } else {
        lemma_put(members.skip(1), name, value);
        assert(put.skip(1) =~= spec_put(members.skip(1), name, value));
        assert(put[0] == members[0]);
        assert forall|other: Seq<char>| other != name implies #[trigger] lookup(put, other)
            == lookup(members, other) by {
            assert(lookup(put.skip(1), other) == lookup(members.skip(1), other));
        }
    }
}

/// The members of an object that is being written.
#[derive(Debug)]
pub struct Fields {
    pub members: Vec<Member>,
}

impl View for Fields {
    type V = Seq<(Seq<char>, JsonView)>;

    open spec fn view(&self) -> Seq<(Seq<char>, JsonView)> {
        members_content(self.members@)
    }
}

impl Fields {
    /// No members.
    pub fn new() -> (fields: Fields)
        ensures
            fields@ == Seq::<(Seq<char>, JsonView)>::empty(),
    {
        Fields { members: Vec::new() }
    }

    /// Adds a member at the end.
    pub fn add(self, name: &str, value: Json) -> (fields: Fields)
        ensures
            fields@ == self@.push((name@, value@)),
    {
        let mut members = self.members;
        let ghost before = members@;
        members.push(Member { name: name.to_owned(), value });
        assert(members@.drop_last() =~= before);
        Fields { members }
    }

    /// Adds a string member at the end.
    pub fn add_text(self, name: &str, value: &str) -> (fields: Fields)
        ensures
            fields@ == self@.push((name@, JsonView::Text(value@))),
    {
        self.add(name, Json::Text(value.to_owned()))
    }

    /// Gives a name a value, in the place of the value that it had, or at the end.
    pub fn put(self, name: &str, value: Json) -> (fields: Fields)
        ensures
            fields@ == spec_put(self@, name@, value@),
    {
        let mut members = self.members;
        let n = members.len();
        let ghost all = members_content(members@);
        proof {
            lemma_members_content(members@);
            assert(all.skip(0) =~= all);
            assert(all.take(0) + spec_put(all, name@, value@) =~= spec_put(all, name@, value@));
        }
        let mut i: usize = 0;
        while i < n
            invariant
                i <= n,
                n == members@.len(),
                all == self@,
                all == members_content(members@),
                all.len() == n,
                forall|j: int|
                    0 <= j < n ==> #[trigger] all[j] == (
                        members@[j].name@,
                        members@[j].value.content(),
                    ),
                spec_put(all, name@, value@) == all.take(i as int) + spec_put(
                    all.skip(i as int),
                    name@,
                    value@,
                ),
            decreases n - i,
        {
            let ghost rest = all.skip(i as int);
            assert(rest[0] == all[i as int]);
            assert(rest.skip(1) =~= all.skip(i + 1));
            if text_eq(members[i].name.as_str(), name) {
                members.set(i, Member { name: name.to_owned(), value });
                proof {
                    lemma_members_content(members@);
                    assert(members_content(members@) =~= all.take(i as int) + (seq![
                        (name@, value@),
                    ] + all.skip(i + 1)));
                }
                return Fields { members };
            }
            proof {
                let tail = spec_put(all.skip(i + 1), name@, value@);
                assert(all.take(i as int) + (seq![all[i as int]] + tail) =~= all.take(i + 1)
                    + tail);
            }
            i += 1;
        }
        proof {
            assert(all.skip(n as int) =~= Seq::<(Seq<char>, JsonView)>::empty());
            assert(all.take(n as int) + seq![(name@, value@)] =~= all.push((name@, value@)));
        }
        Fields { members }.add(name, value)
    }

    /// The object with these members.
    pub fn object(self) -> (document: Json)
        ensures
            document@ == JsonView::Object(self@),
    {
        Json::Object(self.members)
    }
}

pub proof fn lemma_items_content(items: Seq<Json>)
    ensures
        items_content(items).len() == items.len(),
        forall|i: int|
            0 <= i < items.len() ==> #[trigger] items_content(items)[i] == items[i].content(),
    decreases items.len(),
{
    if items.len() > 0 {
        lemma_items_content(items.drop_last());
    }
}

pub proof fn lemma_members_content(members: Seq<Member>)
    ensures
        members_content(members).len() == members.len(),
        forall|i: int|
            0 <= i < members.len() ==> #[trigger] members_content(members)[i] == (
                members[i].name@,
                members[i].value.content(),
            ),
    decreases members.len(),
{
    if members.len() > 0 {
        lemma_members_content(members.drop_last());
    }
}

impl Json {
    /// The value of a member, where the document is an object that has it.
    pub fn get(&self, name: &str) -> (value: Option<&Json>)
        ensures
            match value {
                Some(v) => self@.get(name@) == Some(v@),
                None => self@.get(name@) is None,
            },
    {
        match self {
            Json::Object(members) => {
                let ghost all = members_content(members@);
                proof {
                    lemma_members_content(members@);
                    assert(all.skip(0) =~= all);
                }
                let mut i: usize = 0;
                while i < members.len()
                    invariant
                        i <= members@.len(),
                        *self == Json::Object(*members),
                        all == members_content(members@),
                        all.len() == members@.len(),
                        forall|j: int|
                            0 <= j < members@.len() ==> #[trigger] all[j] == (
                                members@[j].name@,
                                members@[j].value.content(),
                            ),
                        lookup(all, name@) == lookup(all.skip(i as int), name@),
                    decreases members@.len() - i,
                {
                    assert(all.skip(i as int)[0] == all[i as int]);
                    assert(all.skip(i as int).skip(1) =~= all.skip(i + 1));
                    if text_eq(members[i].name.as_str(), name) {
                        return Some(&members[i].value);
                    }
                    i += 1;
                }
                None
            },
            _ => None,
        }
    }

    /// The text of a string.
    pub fn as_str(&self) -> (value: Option<&str>)
        ensures
            match value {
                Some(s) => self@.as_str() == Some(s@),
                None => self@.as_str() is None,
            },
    {
        match self {
            Json::Text(s) => Some(s.as_str()),
            _ => None,
        }
    }

    /// The value of a boolean.
    pub fn as_bool(&self) -> (value: Option<bool>)
        ensures
            value == self@.as_bool(),
    {
        match self {
            Json::Bool(b) => Some(*b),
            _ => None,
        }
    }

    /// The value of an unsigned integer.
    pub fn as_u64(&self) -> (value: Option<u64>)
        ensures
            value == self@.as_u64(),
    {
        match self {
            Json::Unsigned(n) => Some(*n),
            _ => None,
        }
    }

    /// The items of a list.
    pub fn as_array(&self) -> (value: Option<&Vec<Json>>)
        ensures
            match value {
                Some(items) => self@.as_array() == Some(items_content(items@)),
                None => self@.as_array() is None,
            },
    {
        match self {
            Json::List(items) => Some(items),
            _ => None,
        }
    }

    /// The string member with a name.
    pub fn text(&self, name: &str) -> (value: Option<&str>)
        ensures
            match value {
                Some(s) => self@.text(name@) == Some(s@),
                None => self@.text(name@) is None,
            },
    {
        match self.get(name) {
            Some(value) => value.as_str(),
            None => None,
        }
    }

    /// The boolean member with a name.
    pub fn flag(&self, name: &str) -> (value: Option<bool>)
        ensures
            value == self@.flag(name@),
    {
        match self.get(name) {
            Some(value) => value.as_bool(),
            None => None,
        }
    }

    /// The member `inner` of the member `outer`.
    pub fn nested(&self, outer: &str, inner: &str) -> (value: Option<&Json>)
        ensures
            match value {
                Some(v) => self@.nested(outer@, inner@) == Some(v@),
                None => self@.nested(outer@, inner@) is None,
            },
    {
        match self.get(outer) {
            Some(value) => value.get(inner),
            None => None,
        }
    }

    /// A copy of the document.
    pub fn duplicate(&self) -> (copy: Json)
        ensures
            copy@ == self@,
        decreases self,
    {
        match self {
            Json::Null => Json::Null,
            Json::Bool(b) => Json::Bool(*b),
            Json::Unsigned(n) => Json::Unsigned(*n),
            Json::Number(s) => Json::Number(s.clone()),
            Json::Text(s) => Json::Text(s.clone()),
            Json::List(items) => {
                let mut copies: Vec<Json> = Vec::new();
                let mut i: usize = 0;
                while i < items.len()
                    invariant
                        i <= items@.len(),
                        *self == Json::List(*items),
                        items_content(copies@) == items_content(items@.take(i as int)),
                    decreases items@.len() - i,
                {
                    assert(decreases_to!(*self => self->List_0));
                    assert(decreases_to!(*items => items@));
                    assert(decreases_to!(items@ => items@[i as int]));
                    let ghost before = copies@;
                    let copy = items[i].duplicate();
                    copies.push(copy);
                    i += 1;
                    assert(copies@.drop_last() =~= before);
                    assert(items@.take(i as int).drop_last() =~= items@.take(i - 1));
                }
                assert(items@.take(i as int) =~= items@);
                Json::List(copies)
            },
            Json::Object(members) => {
                let mut copies: Vec<Member> = Vec::new();
                let mut i: usize = 0;
                while i < members.len()
                    invariant
                        i <= members@.len(),
                        *self == Json::Object(*members),
                        members_content(copies@) == members_content(members@.take(i as int)),
                    decreases members@.len() - i,
                {
                    assert(decreases_to!(*self => self->Object_0));
                    assert(decreases_to!(*members => members@));
                    let ghost before = copies@;
                    assert(decreases_to!(members@ => members@[i as int]));
                    assert(decreases_to!(members@[i as int] => members@[i as int].value));
                    let copy = Member {
                        name: members[i].name.clone(),
                        value: members[i].value.duplicate(),
                    };
                    copies.push(copy);
                    i += 1;
                    assert(copies@.drop_last() =~= before);
                    assert(members@.take(i as int).drop_last() =~= members@.take(i - 1));
                }
                assert(members@.take(i as int) =~= members@);
                Json::Object(copies)
            },
        }
    }
}

} // verus!
