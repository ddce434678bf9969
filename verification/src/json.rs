//! JSON values whose object members keep the order in which they were given,
//! and their text.

use vstd::prelude::*;
use vstd::string::StringExecFns;
use crate::assoc::lookup;
use crate::number::Decimal;
use crate::text::{append_decimal, append_quoted, decimal_text, push_char, quoted};

verus! {

/// A JSON value. An object is a sequence of members, so the order of its keys
/// is part of the value.
#[derive(Debug, PartialEq, Eq)]
pub enum Json {
    Null,
    Bool(bool),
    /// A whole number.
    Int(i64),
    /// A number with a fraction part.
    Number(Decimal),
    Text(String),
    Array(Vec<Json>),
    Object(Vec<Member>),
}

/// One member of a JSON object.
#[derive(Debug, PartialEq, Eq)]
pub struct Member {
    pub key: String,
    pub value: Json,
}

/// The mathematical value of a `Json`.
pub enum JsonView {
    Null,
    Bool(bool),
    Int(int),
    Number(Seq<char>),
    Text(Seq<char>),
    Array(Seq<JsonView>),
    Object(Seq<(Seq<char>, JsonView)>),
}

impl View for Json {
    type V = JsonView;

    open spec fn view(&self) -> JsonView
        decreases self,
    {
        match self {
            Json::Null => JsonView::Null,
            Json::Bool(b) => JsonView::Bool(*b),
            Json::Int(n) => JsonView::Int(*n as int),
            Json::Number(d) => JsonView::Number(d@),
            Json::Text(s) => JsonView::Text(s@),
            Json::Array(items) => JsonView::Array(
                Seq::new(
                    items@.len(),
                    |i: int|
                        if 0 <= i < items@.len() {
                            items@[i]@
                        } else {
                            JsonView::Null
                        },
                ),
            ),
            Json::Object(members) => JsonView::Object(
                Seq::new(
                    members@.len(),
                    |i: int|
                        if 0 <= i < members@.len() {
                            (members@[i].key@, members@[i].value@)
                        } else {
                            (Seq::empty(), JsonView::Null)
                        },
                ),
            ),
        }
    }
}

/// The compact JSON text of a value: no white space, members and items in
/// their order, separated by commas.
pub open spec fn rendered(j: JsonView) -> Seq<char>
    decreases j,
{
    match j {
        JsonView::Null => seq!['n', 'u', 'l', 'l'],
        JsonView::Bool(b) => if b {
            seq!['t', 'r', 'u', 'e']
        } else {
            seq!['f', 'a', 'l', 's', 'e']
        },
        JsonView::Int(n) => decimal_text(n),
        JsonView::Number(numeral) => numeral,
        JsonView::Text(s) => quoted(s),
        JsonView::Array(items) => seq!['['] + rendered_items(items) + seq![']'],
        JsonView::Object(members) => seq!['{'] + rendered_members(members) + seq!['}'],
    }
}

/// The texts of the items, with a comma between each two.
pub open spec fn rendered_items(items: Seq<JsonView>) -> Seq<char>
    decreases items,
{
    if items.len() == 0 {
        Seq::empty()
    } else if items.len() == 1 {
        rendered(items[0])
    } else {
        rendered_items(items.drop_last()) + seq![','] + rendered(items.last())
    }
}

/// The texts of the members, each a quoted key, a colon and the value, with a
/// comma between each two.
pub open spec fn rendered_members(members: Seq<(Seq<char>, JsonView)>) -> Seq<char>
    decreases members,
{
    if members.len() == 0 {
        Seq::empty()
    } else if members.len() == 1 {
        quoted(members[0].0) + seq![':'] + rendered(members[0].1)
    } else {
        rendered_members(members.drop_last()) + seq![','] + quoted(members.last().0) + seq![':']
            + rendered(members.last().1)
    }
}

impl View for Member {
    type V = (Seq<char>, JsonView);

    open spec fn view(&self) -> (Seq<char>, JsonView) {
        (self.key@, self.value@)
    }
}

/// The value that an object holds under `key`: that of the first member
/// with this key. Nothing if there is no such member, or if the value is no
/// object.
pub open spec fn member_of(json: JsonView, key: Seq<char>) -> Option<JsonView> {
    match json {
        JsonView::Object(members) => lookup(members, key),
        _ => None,
    }
}

/// The values of the items, in order.
pub open spec fn json_views(items: Seq<Json>) -> Seq<JsonView> {
    Seq::new(items.len(), |i: int| items[i]@)
}

/// The values of the members, in order.
pub open spec fn member_views(members: Seq<Member>) -> Seq<(Seq<char>, JsonView)> {
    Seq::new(members.len(), |i: int| members[i]@)
}

impl Member {
    /// The member with the given key and value.
    pub fn new(key: &str, value: Json) -> (member: Member)
        ensures
            member@ == (key@, value@),
    {
        Member { key: String::from_str(key), value }
    }
}

impl Json {
    /// The array of the given items.
    pub fn array(items: Vec<Json>) -> (json: Json)
        ensures
            json@ == JsonView::Array(json_views(items@)),
    {
        let json = Json::Array(items);
        proof {
            reveal_with_fuel(<Json as View>::view, 2);
            assert(json@->Array_0 =~= json_views(items@));
        }
        json
    }

    /// The object of the given members, in their order.
    pub fn object(members: Vec<Member>) -> (json: Json)
        ensures
            json@ == JsonView::Object(member_views(members@)),
    {
        let json = Json::Object(members);
        proof {
            reveal_with_fuel(<Json as View>::view, 2);
            assert(json@->Object_0 =~= member_views(members@));
        }
        json
    }

    /// The text value of the given string.
    pub fn text(s: &str) -> (json: Json)
        ensures
            json@ == JsonView::Text(s@),
    {
        Json::Text(String::from_str(s))
    }

    /// Appends the compact text of the value to `out`.
    pub fn append_to(&self, out: &mut String)
        ensures
            final(out)@ == old(out)@ + rendered(self@),
        decreases self,
    {
        match self {
            Json::Null => {
                push_char(out, 'n');
                push_char(out, 'u');
                push_char(out, 'l');
                push_char(out, 'l');
            },
            Json::Bool(b) => {
                if *b {
                    push_char(out, 't');
                    push_char(out, 'r');
                    push_char(out, 'u');
                    push_char(out, 'e');
                } else {
                    push_char(out, 'f');
                    push_char(out, 'a');
                    push_char(out, 'l');
                    push_char(out, 's');
                    push_char(out, 'e');
                }
            },
            Json::Int(n) => {
                append_decimal(out, *n);
            },
            Json::Number(d) => {
                out.append(d.as_str());
            },
            Json::Text(s) => {
                append_quoted(out, s.as_str());
            },
            Json::Array(items) => {
                push_char(out, '[');
                let ghost before = out@;
                let ghost views = self@->Array_0;
                let mut i: usize = 0;
                while i < items.len()
                    invariant
                        i <= items.len(),
                        *self == Json::Array(*items),
                        views.len() == items.len(),
                        forall|j: int| 0 <= j < items.len() ==> views[j] == #[trigger] items@[j]@,
                        out@ == before + rendered_items(views.take(i as int)),
                    decreases items.len() - i,
                {
                    if i > 0 {
                        push_char(out, ',');
                    }
                    assert(decreases_to!(self => items[i as int])) by {
                        assert(decreases_to!(self => self->Array_0));
                        assert(decreases_to!(items@ => items@[i as int]));
                    }
                    items[i].append_to(out);
                    proof {
                        assert(views.take(i + 1).drop_last() == views.take(i as int));
                        assert(views.take(i + 1).last() == items@[i as int]@);
                    }
                    i = i + 1;
                }
                proof {
                    assert(views.take(i as int) == views);
                }
                push_char(out, ']');
            },
            Json::Object(members) => {
                push_char(out, '{');
                let ghost before = out@;
                let ghost views = self@->Object_0;
                assert(views.len() == members.len() && forall|j: int|
                    0 <= j < members.len() ==> views[j] == #[trigger] members@[j]@) by {
                    reveal_with_fuel(<Json as View>::view, 2);
                }
                let mut i: usize = 0;
                while i < members.len()
                    invariant
                        i <= members.len(),
                        *self == Json::Object(*members),
                        views.len() == members.len(),
                        forall|j: int| 0 <= j < members.len() ==> views[j] == #[trigger] members@[j]@,
                        out@ == before + rendered_members(views.take(i as int)),
                    decreases members.len() - i,
                {
                    if i > 0 {
                        push_char(out, ',');
                    }
                    append_quoted(out, members[i].key.as_str());
                    push_char(out, ':');
                    assert(decreases_to!(self => members[i as int].value)) by {
                        assert(decreases_to!(self => self->Object_0));
                        assert(decreases_to!(members@ => members@[i as int]));
                    }
                    members[i].value.append_to(out);
                    proof {
                        assert(views.take(i + 1).drop_last() == views.take(i as int));
                        assert(views.take(i + 1).last() == members@[i as int]@);
                    }
                    i = i + 1;
                }
                proof {
                    assert(views.take(i as int) == views);
                }
                push_char(out, '}');
            },
        }
    }

    /// The compact text of the value.
    pub fn render(&self) -> (text: String)
        ensures
            text@ == rendered(self@),
    {
        let mut text = String::new();
        self.append_to(&mut text);
        text
    }
}

} // verus!
