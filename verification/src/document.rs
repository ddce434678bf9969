//! How a resource document is written as JSON.

use vstd::prelude::*;
use crate::json::JsonView;
use crate::link::{CurieView, LinkView};
use crate::model::{curies_rel, embedded_key, links_key, self_rel, ResourceView};
use crate::value::ValueView;

verus! {

/// A link as a JSON object: its target, then its title if it has one, then
/// the mark that it is templated if it is.
pub open spec fn link_object(link: LinkView) -> JsonView {
    JsonView::Object(
        seq![("href"@, JsonView::Text(link.href))] + (match link.title {
            Some(title) => seq![("title"@, JsonView::Text(title))],
            None => Seq::empty(),
        }) + (if link.templated {
            seq![("templated"@, JsonView::Bool(true))]
        } else {
            Seq::empty()
        }),
    )
}

/// A curie as a JSON object: its name, its template, and the mark that it is
/// templated.
pub open spec fn curie_object(curie: CurieView) -> JsonView {
    JsonView::Object(
        seq![
            ("name"@, JsonView::Text(curie.prefix)),
            ("href"@, JsonView::Text(curie.href_template)),
            ("templated"@, JsonView::Bool(true)),
        ],
    )
}

/// What stands under a relation: the one value itself if there is exactly
/// one, else the array of the values in their order.
pub open spec fn one_or_many(items: Seq<JsonView>) -> JsonView {
    if items.len() == 1 {
        items[0]
    } else {
        JsonView::Array(items)
    }
}

/// The JSON value of a state attribute. A float without a numeral is
/// written as null.
pub open spec fn scalar(value: ValueView) -> JsonView {
    match value {
        ValueView::Text(s) => JsonView::Text(s),
        ValueView::Int(n) => JsonView::Int(n),
        ValueView::Float(Some(numeral)) => JsonView::Number(numeral),
        ValueView::Float(None) => JsonView::Null,
        ValueView::Bool(b) => JsonView::Bool(b),
        ValueView::Null => JsonView::Null,
    }
}

/// The state attributes as members, in their order.
pub open spec fn state_members(state: Seq<(Seq<char>, ValueView)>) -> Seq<(Seq<char>, JsonView)> {
    Seq::new(state.len(), |i: int| (state[i].0, scalar(state[i].1)))
}

/// The links as JSON objects, in their order.
pub open spec fn link_objects(links: Seq<LinkView>) -> Seq<JsonView> {
    Seq::new(links.len(), |i: int| link_object(links[i]))
}

/// The curies as JSON objects, in their order.
pub open spec fn curie_objects(curies: Seq<CurieView>) -> Seq<JsonView> {
    Seq::new(curies.len(), |i: int| curie_object(curies[i]))
}

/// The links of the other relations as members, in their order.
pub open spec fn relation_members(links: Seq<(Seq<char>, Seq<LinkView>)>) -> Seq<
    (Seq<char>, JsonView),
> {
    Seq::new(links.len(), |i: int| (links[i].0, one_or_many(link_objects(links[i].1))))
}

/// The members of the link section that stand under the names that a
/// document keeps for itself: the self link, if there is one, then the
/// curies, if there are any, as an array.
pub open spec fn own_members(doc: ResourceView) -> Seq<(Seq<char>, JsonView)> {
    (match doc.self_link {
        Some(link) => seq![(self_rel(), link_object(link))],
        None => Seq::empty(),
    }) + (if doc.curies.len() > 0 {
        seq![(curies_rel(), JsonView::Array(curie_objects(doc.curies)))]
    } else {
        Seq::empty()
    })
}

/// The members of the link section: the self link first, then the curies,
/// then the other relations.
pub open spec fn link_members(doc: ResourceView) -> Seq<(Seq<char>, JsonView)> {
    own_members(doc) + relation_members(doc.links)
}

/// The members of a section, under its key; nothing if there are none.
pub open spec fn section(key: Seq<char>, members: Seq<(Seq<char>, JsonView)>) -> Seq<
    (Seq<char>, JsonView),
> {
    if members.len() > 0 {
        seq![(key, JsonView::Object(members))]
    } else {
        Seq::empty()
    }
}

/// The JSON value of a document: its state attributes as top-level members,
/// then its links under `_links`, then its embedded resources under
/// `_embedded`. A section without members is left out.
pub open spec fn document(doc: ResourceView) -> JsonView
    decreases doc,
{
    JsonView::Object(
        state_members(doc.state) + section(links_key(), link_members(doc)) + section(
            embedded_key(),
            embedded_members(doc.embedded),
        ),
    )
}

/// The embedded resources as members, in their order.
pub open spec fn embedded_members(embedded: Seq<(Seq<char>, Seq<ResourceView>)>) -> Seq<
    (Seq<char>, JsonView),
>
    decreases embedded,
{
    Seq::new(
        embedded.len(),
        |i: int|
            if 0 <= i < embedded.len() {
                (embedded[i].0, one_or_many(documents(embedded[i].1)))
            } else {
                (Seq::empty(), JsonView::Null)
            },
    )
}

/// The JSON values of the given documents, in order.
pub open spec fn documents(resources: Seq<ResourceView>) -> Seq<JsonView>
    decreases resources,
{
    Seq::new(
        resources.len(),
        |j: int|
            if 0 <= j < resources.len() {
                document(resources[j])
            } else {
                JsonView::Null
            },
    )
}

} // verus!
