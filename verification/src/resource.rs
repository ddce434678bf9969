//! Resource documents: a self link, links and embedded resources by
//! relation, curies, and state attributes.

use vstd::prelude::*;
use vstd::string::StringExecFns;
use crate::assoc::{find_key, key_views, keys_of, lemma_position, lookup};
use crate::document::{
    curie_object, curie_objects, document, documents, embedded_members, link_members,
    link_object, link_objects, one_or_many, relation_members, scalar, section, state_members,
};
use crate::json::{json_views, member_views, Json, Member};
use crate::link::{Curie, CurieView, Link, LinkView};
use crate::number::Float;
use crate::model::{
    lemma_add_curie_wf, lemma_add_link_wf, lemma_add_resource_wf, lemma_add_state_wf,
    lemma_set_self_wf, DocumentError, ResourceView,
};
use crate::value::{note_well_formed, StateValue, ValueView};

verus! {

/// A resource document. Each operation takes the document and gives the
/// document that results, so a document that was handed on never changes.
///
/// Relations and state keys are held beside what is stored under them: the
/// links of `link_rels[i]` are `link_groups[i]`, and so on.
#[derive(Debug, PartialEq, Eq)]
pub struct Resource {
    self_link: Option<Link>,
    curies: Vec<Curie>,
    link_rels: Vec<String>,
    link_groups: Vec<Vec<Link>>,
    embed_rels: Vec<String>,
    embed_groups: Vec<Vec<Resource>>,
    state_keys: Vec<String>,
    state_values: Vec<StateValue>,
}

/// The values of the links, in order.
pub open spec fn link_views(links: Seq<Link>) -> Seq<LinkView> {
    Seq::new(links.len(), |i: int| links[i]@)
}

/// The values of the curies, in order.
pub open spec fn curie_views(curies: Seq<Curie>) -> Seq<CurieView> {
    Seq::new(curies.len(), |i: int| curies[i]@)
}

/// The relations with the values of their links.
pub open spec fn link_group_views(rels: Seq<String>, groups: Seq<Vec<Link>>) -> Seq<
    (Seq<char>, Seq<LinkView>),
> {
    Seq::new(rels.len(), |i: int| (rels[i]@, link_views(groups[i]@)))
}

/// The state keys with the values stored under them.
pub open spec fn state_views(keys: Seq<String>, values: Seq<StateValue>) -> Seq<
    (Seq<char>, ValueView),
> {
    Seq::new(keys.len(), |i: int| (keys[i]@, values[i]@))
}

/// The values of the documents, in order.
pub closed spec fn resource_views(resources: Seq<Resource>) -> Seq<ResourceView>
    decreases resources,
{
    Seq::new(
        resources.len(),
        |j: int|
            if 0 <= j < resources.len() {
                resources[j]@
            } else {
                ResourceView::empty()
            },
    )
}

/// The values of the documents are as many as the documents, each the value
/// of the document in its place.
pub proof fn lemma_resource_views(resources: Seq<Resource>)
    ensures
        resource_views(resources).len() == resources.len(),
        forall|j: int|
            0 <= j < resources.len() ==> resource_views(resources)[j] == (
            #[trigger] resources[j])@,
{
}

/// The relations with the values of the documents embedded under them.
pub closed spec fn embed_views(rels: Seq<String>, groups: Seq<Vec<Resource>>) -> Seq<
    (Seq<char>, Seq<ResourceView>),
>
    decreases groups,
{
    Seq::new(
        rels.len(),
        |i: int|
            (
                rels[i]@,
                if 0 <= i < groups.len() {
                    resource_views(groups[i]@)
                } else {
                    Seq::empty()
                },
            ),
    )
}

impl View for Resource {
    type V = ResourceView;

    closed spec fn view(&self) -> ResourceView
        decreases self,
    {
        ResourceView {
            self_link: match self.self_link {
                Some(link) => Some(link@),
                None => None,
            },
            curies: curie_views(self.curies@),
            links: link_group_views(self.link_rels@, self.link_groups@),
            embedded: embed_views(self.embed_rels@, self.embed_groups@),
            state: state_views(self.state_keys@, self.state_values@),
        }
    }
}

/// Whether an outcome of an operation is the one that the model gives: the
/// same refusal, or a document with the value that the model gives, which
/// is well-formed.
pub open spec fn agrees(
    outcome: Result<Resource, DocumentError>,
    model: Result<ResourceView, DocumentError>,
) -> bool {
    match (outcome, model) {
        (Ok(doc), Ok(view)) => doc@ == view && view.wf(),
        (Err(e), Err(f)) => e == f,
        _ => false,
    }
}

fn link_json(link: &Link) -> (json: Json)
    ensures
        json@ == link_object(link@),
{
    let mut members: Vec<Member> = Vec::new();
    members.push(Member::new("href", Json::text(link.href())));
    match link.title_text() {
        Some(title) => {
            members.push(Member::new("title", Json::text(title)));
        },
        None => {},
    }
    if link.is_templated() {
        members.push(Member::new("templated", Json::Bool(true)));
    }
    proof {
        assert(member_views(members@) =~= link_object(link@)->Object_0);
    }
    Json::object(members)
}

fn curie_json(curie: &Curie) -> (json: Json)
    ensures
        json@ == curie_object(curie@),
{
    let mut members: Vec<Member> = Vec::new();
    members.push(Member::new("name", Json::text(curie.prefix())));
    members.push(Member::new("href", Json::text(curie.href_template())));
    members.push(Member::new("templated", Json::Bool(true)));
    proof {
        assert(member_views(members@) =~= curie_object(curie@)->Object_0);
    }
    Json::object(members)
}

fn scalar_json(value: &StateValue) -> (json: Json)
    ensures
        json@ == scalar(value@),
{
    match value {
        StateValue::Text(s) => Json::Text(s.clone()),
        StateValue::Int(n) => Json::Int(*n),
        StateValue::Float(Float::Finite(numeral)) => Json::Number(numeral.clone()),
        StateValue::Float(Float::NonFinite) => Json::Null,
        StateValue::Bool(b) => Json::Bool(*b),
        StateValue::Null => Json::Null,
    }
}

fn one_or_many_json(items: Vec<Json>) -> (json: Json)
    ensures
        json@ == one_or_many(json_views(items@)),
{
    let mut items = items;
    if items.len() == 1 {
        match items.pop() {
            Some(only) => only,
            None => Json::Null,
        }
    } else {
        Json::array(items)
    }
}

fn links_json(links: &Vec<Link>) -> (items: Vec<Json>)
    ensures
        json_views(items@) == link_objects(link_views(links@)),
{
    let mut items: Vec<Json> = Vec::new();
    let mut i: usize = 0;
    while i < links.len()
        invariant
            i <= links.len(),
            items.len() == i,
            forall|j: int| 0 <= j < i ==> (#[trigger] items@[j])@ == link_object(links@[j]@),
        decreases links.len() - i,
    {
        items.push(link_json(&links[i]));
        i = i + 1;
    }
    proof {
        assert(json_views(items@) =~= link_objects(link_views(links@)));
    }
    items
}

fn curies_json(curies: &Vec<Curie>) -> (items: Vec<Json>)
    ensures
        json_views(items@) == curie_objects(curie_views(curies@)),
{
    let mut items: Vec<Json> = Vec::new();
    let mut i: usize = 0;
    while i < curies.len()
        invariant
            i <= curies.len(),
            items.len() == i,
            forall|j: int| 0 <= j < i ==> (#[trigger] items@[j])@ == curie_object(curies@[j]@),
        decreases curies.len() - i,
    {
        items.push(curie_json(&curies[i]));
        i = i + 1;
    }
    proof {
        assert(json_views(items@) =~= curie_objects(curie_views(curies@)));
    }
    items
}

impl Resource {
    #[verifier::type_invariant]
    spec fn inv(&self) -> bool {
        &&& self.link_rels.len() == self.link_groups.len()
        &&& self.embed_rels.len() == self.embed_groups.len()
        &&& self.state_keys.len() == self.state_values.len()
        &&& self@.wf()
    }

    /// A document with nothing in it.
    pub fn new() -> (doc: Resource)
        ensures
            doc@ == ResourceView::empty(),
            doc@.wf(),
    {
        let doc = Resource {
            self_link: None,
            curies: Vec::new(),
            link_rels: Vec::new(),
            link_groups: Vec::new(),
            embed_rels: Vec::new(),
            embed_groups: Vec::new(),
            state_keys: Vec::new(),
            state_values: Vec::new(),
        };
        proof {
            assert(doc@.curies =~= Seq::empty());
            assert(doc@.links =~= Seq::empty());
            assert(doc@.embedded =~= Seq::empty());
            assert(doc@.state =~= Seq::empty());
        }
        doc
    }

    fn set_self(self, link: Link) -> (outcome: Result<Resource, DocumentError>)
        ensures
            agrees(outcome, self@.set_self(link@)),
    {
        proof {
            use_type_invariant(&self);
            lemma_set_self_wf(self@, link@);
        }
        if self.self_link.is_some() {
            return Err(DocumentError::SelfLinkAlreadySet);
        }
        Ok(
            Resource {
                self_link: Some(link),
                curies: self.curies,
                link_rels: self.link_rels,
                link_groups: self.link_groups,
                embed_rels: self.embed_rels,
                embed_groups: self.embed_groups,
                state_keys: self.state_keys,
                state_values: self.state_values,
            },
        )
    }

    /// Sets the self link to a link to `href`. A document has at most one
    /// self link: setting it a second time is refused.
    pub fn with_self(self, href: &str) -> (outcome: Result<Resource, DocumentError>)
        ensures
            agrees(outcome, self@.with_self(href@)),
    {
        self.set_self(Link::new(href))
    }

    /// Adds a curie at the end of the curies of the document.
    pub fn add_curie(self, prefix: &str, href_template: &str) -> (doc: Resource)
        ensures
            doc@ == self@.add_curie(prefix@, href_template@),
            doc@.wf(),
    {
        proof {
            use_type_invariant(&self);
            lemma_add_curie_wf(self@, prefix@, href_template@);
        }
        let mut curies = self.curies;
        curies.push(Curie::new(prefix, href_template));
        let doc = Resource {
            self_link: self.self_link,
            curies,
            link_rels: self.link_rels,
            link_groups: self.link_groups,
            embed_rels: self.embed_rels,
            embed_groups: self.embed_groups,
            state_keys: self.state_keys,
            state_values: self.state_values,
        };
        proof {
            assert(doc@.curies =~= self@.add_curie(prefix@, href_template@).curies);
        }
        doc
    }

    /// Stores `value` under `key`. A key that the document has keeps its
    /// slot and gets the new value; a new key comes last. The keys
    /// `_links` and `_embedded` are refused.
    pub fn add_state(self, key: &str, value: StateValue) -> (outcome: Result<
        Resource,
        DocumentError,
    >)
        ensures
            agrees(outcome, self@.add_state(key@, value@)),
    {
        note_well_formed(&value);
        proof {
            use_type_invariant(&self);
            lemma_add_state_wf(self@, key@, value@);
        }
        let key = String::from_str(key);
        if key == String::from_str("_links") || key == String::from_str("_embedded") {
            return Err(DocumentError::ReservedKey);
        }
        let mut state_keys = self.state_keys;
        let mut state_values = self.state_values;
        let ghost before = state_views(state_keys@, state_values@);
        proof {
            assert(keys_of(before) =~= key_views(state_keys@));
            lemma_position(key_views(state_keys@), key@);
        }
        match find_key(&state_keys, &key) {
            Some(p) => {
                state_values.set(p, value);
                proof {
                    assert(state_views(state_keys@, state_values@) =~= before.update(
                        p as int,
                        (key@, value@),
                    ));
                }
            },
            None => {
                state_keys.push(key);
                state_values.push(value);
                proof {
                    assert(state_views(state_keys@, state_values@) =~= before.push(
                        (key@, value@),
                    ));
                }
            },
        }
        Ok(
            Resource {
                self_link: self.self_link,
                curies: self.curies,
                link_rels: self.link_rels,
                link_groups: self.link_groups,
                embed_rels: self.embed_rels,
                embed_groups: self.embed_groups,
                state_keys,
                state_values,
            },
        )
    }

    /// Adds `link` at the end of the links of `rel`. Links of one relation
    /// need not differ. The relation `self` sets the self link, and is
    /// refused if the document has one; the relation `curies` is refused.
    pub fn add_link(self, rel: &str, link: Link) -> (outcome: Result<Resource, DocumentError>)
        ensures
            agrees(outcome, self@.add_link(rel@, link@)),
    {
        proof {
            use_type_invariant(&self);
            lemma_add_link_wf(self@, rel@, link@);
        }
        let rel = String::from_str(rel);
        if rel == String::from_str("self") {
            return self.set_self(link);
        }
        if rel == String::from_str("curies") {
            return Err(DocumentError::ReservedRelation);
        }
        let mut link_rels = self.link_rels;
        let mut link_groups = self.link_groups;
        let ghost before = link_group_views(link_rels@, link_groups@);
        proof {
            assert(keys_of(before) =~= key_views(link_rels@));
            lemma_position(key_views(link_rels@), rel@);
        }
        match find_key(&link_rels, &rel) {
            Some(p) => {
                let ghost old_group = link_groups@[p as int]@;
                link_groups[p].push(link);
                proof {
                    assert(link_views(link_groups@[p as int]@) =~= link_views(old_group).push(
                        link@,
                    ));
                    assert(link_group_views(link_rels@, link_groups@) =~= before.update(
                        p as int,
                        (rel@, before[p as int].1.push(link@)),
                    ));
                }
            },
            None => {
                link_rels.push(rel);
                let mut group: Vec<Link> = Vec::new();
                group.push(link);
                link_groups.push(group);
                proof {
                    assert(link_views(group@) =~= seq![link@]);
                    assert(link_group_views(link_rels@, link_groups@) =~= before.push(
                        (rel@, seq![link@]),
                    ));
                }
            },
        }
        Ok(
            Resource {
                self_link: self.self_link,
                curies: self.curies,
                link_rels,
                link_groups,
                embed_rels: self.embed_rels,
                embed_groups: self.embed_groups,
                state_keys: self.state_keys,
                state_values: self.state_values,
            },
        )
    }

    /// Embeds `child` at the end of the resources embedded under `rel`.
    pub fn add_resource(self, rel: &str, child: Resource) -> (doc: Resource)
        ensures
            doc@ == self@.add_resource(rel@, child@),
            doc@.wf(),
    {
        proof {
            use_type_invariant(&self);
            use_type_invariant(&child);
            lemma_add_resource_wf(self@, rel@, child@);
        }
        let rel = String::from_str(rel);
        let mut embed_rels = self.embed_rels;
        let mut embed_groups = self.embed_groups;
        let ghost before = embed_views(embed_rels@, embed_groups@);
        proof {
            assert(keys_of(before) =~= key_views(embed_rels@));
            lemma_position(key_views(embed_rels@), rel@);
        }
        match find_key(&embed_rels, &rel) {
            Some(p) => {
                let ghost old_group = embed_groups@[p as int]@;
                embed_groups[p].push(child);
                proof {
                    assert(resource_views(embed_groups@[p as int]@) =~= resource_views(
                        old_group,
                    ).push(child@));
                    assert(embed_views(embed_rels@, embed_groups@) =~= before.update(
                        p as int,
                        (rel@, before[p as int].1.push(child@)),
                    ));
                }
            },
            None => {
                embed_rels.push(rel);
                let mut group: Vec<Resource> = Vec::new();
                group.push(child);
                embed_groups.push(group);
                proof {
                    assert(resource_views(group@) =~= seq![child@]);
                    assert(embed_views(embed_rels@, embed_groups@) =~= before.push(
                        (rel@, seq![child@]),
                    ));
                }
            },
        }
        Resource {
            self_link: self.self_link,
            curies: self.curies,
            link_rels: self.link_rels,
            link_groups: self.link_groups,
            embed_rels,
            embed_groups,
            state_keys: self.state_keys,
            state_values: self.state_values,
        }
    }

    fn link_section(&self) -> (members: Vec<Member>)
        ensures
            member_views(members@) == link_members(self@),
    {
        proof {
            use_type_invariant(self);
        }
        let mut members: Vec<Member> = Vec::new();
        match &self.self_link {
            Some(link) => {
                members.push(Member::new("self", link_json(link)));
            },
            None => {},
        }
        if self.curies.len() > 0 {
            members.push(Member::new("curies", Json::array(curies_json(&self.curies))));
        }
        let ghost head = member_views(members@);
        let ghost relations = relation_members(self@.links);
        let mut i: usize = 0;
        while i < self.link_rels.len()
            invariant
                i <= self.link_rels.len(),
                self.link_rels.len() == self.link_groups.len(),
                relations == relation_members(link_group_views(self.link_rels@, self.link_groups@)),
                member_views(members@) == head + relations.take(i as int),
            decreases self.link_rels.len() - i,
        {
            let value = one_or_many_json(links_json(&self.link_groups[i]));
            let ghost so_far = member_views(members@);
            members.push(Member { key: self.link_rels[i].clone(), value });
            proof {
                assert(member_views(members@) =~= so_far.push(relations[i as int]));
                assert(relations.take(i + 1) =~= relations.take(i as int).push(
                    relations[i as int],
                ));
            }
            i = i + 1;
        }
        proof {
            assert(relations.take(i as int) =~= relations);
            assert(member_views(members@) =~= link_members(self@));
        }
        members
    }

    fn embedded_section(&self) -> (members: Vec<Member>)
        ensures
            member_views(members@) == embedded_members(self@.embedded),
        decreases self, 0nat,
    {
        proof {
            use_type_invariant(self);
        }
        let ghost all = embedded_members(self@.embedded);
        let mut members: Vec<Member> = Vec::new();
        let mut i: usize = 0;
        while i < self.embed_rels.len()
            invariant
                i <= self.embed_rels.len(),
                self.embed_rels.len() == self.embed_groups.len(),
                all == embedded_members(embed_views(self.embed_rels@, self.embed_groups@)),
                member_views(members@) == all.take(i as int),
            decreases self.embed_rels.len() - i,
        {
            let group = &self.embed_groups[i];
            let mut items: Vec<Json> = Vec::new();
            let mut j: usize = 0;
            while j < group.len()
                invariant
                    j <= group.len(),
                    i < self.embed_groups.len(),
                    group == self.embed_groups[i as int],
                    items.len() == j,
                    forall|k: int| 0 <= k < j ==> (#[trigger] items@[k])@ == document(group@[k]@),
                decreases group.len() - j,
            {
                assert(decreases_to!(self => group[j as int])) by {
                    assert(decreases_to!(self => self.embed_groups));
                    assert(decreases_to!(self.embed_groups@ => self.embed_groups@[i as int]));
                    assert(decreases_to!(group@ => group@[j as int]));
                }
                items.push(group[j].to_json());
                j = j + 1;
            }
            proof {
                assert(json_views(items@) =~= documents(resource_views(group@)));
            }
            let value = one_or_many_json(items);
            let ghost so_far = member_views(members@);
            members.push(Member { key: self.embed_rels[i].clone(), value });
            proof {
                assert(member_views(members@) =~= so_far.push(all[i as int]));
                assert(all.take(i + 1) =~= all.take(i as int).push(all[i as int]));
            }
            i = i + 1;
        }
        proof {
            assert(all.take(i as int) =~= all);
        }
        members
    }

    /// The document as a JSON value: the state attributes as top-level
    /// members in their order, then the links under `_links` (the self link
    /// first, then the curies, then each other relation), then the embedded
    /// resources under `_embedded`. Under a relation with one link or one
    /// resource stands that one value; under a relation with more stands
    /// the array of them, in the order in which they were added. A section
    /// with nothing in it is left out.
    pub fn to_json(&self) -> (json: Json)
        ensures
            json@ == document(self@),
            self@.wf(),
        decreases self, 1nat,
    {
        proof {
            use_type_invariant(self);
        }
        let ghost state = state_members(self@.state);
        let mut members: Vec<Member> = Vec::new();
        let mut i: usize = 0;
        while i < self.state_keys.len()
            invariant
                i <= self.state_keys.len(),
                self.state_keys.len() == self.state_values.len(),
                state == state_members(state_views(self.state_keys@, self.state_values@)),
                member_views(members@) == state.take(i as int),
            decreases self.state_keys.len() - i,
        {
            let value = scalar_json(&self.state_values[i]);
            let ghost so_far = member_views(members@);
            members.push(Member { key: self.state_keys[i].clone(), value });
            proof {
                assert(member_views(members@) =~= so_far.push(state[i as int]));
                assert(state.take(i + 1) =~= state.take(i as int).push(state[i as int]));
            }
            i = i + 1;
        }
        proof {
            assert(state.take(i as int) =~= state);
        }
        let links = self.link_section();
        if links.len() > 0 {
            members.push(Member::new("_links", Json::object(links)));
        }
        let embedded = self.embedded_section();
        if embedded.len() > 0 {
            members.push(Member::new("_embedded", Json::object(embedded)));
        }
        proof {
            assert(member_views(members@) =~= document(self@)->Object_0);
        }
        Json::object(members)
    }

    /// The self link, if the document has one.
    pub fn self_link(&self) -> (link: Option<&Link>)
        ensures
            match link {
                Some(l) => self@.self_link == Some(l@),
                None => self@.self_link is None,
            },
    {
        match &self.self_link {
            Some(l) => Some(l),
            None => None,
        }
    }

    /// The curies, in the order in which they were added.
    pub fn curies(&self) -> (curies: &Vec<Curie>)
        ensures
            curie_views(curies@) == self@.curies,
    {
        &self.curies
    }

    /// The links of the relation `rel`, in the order in which they were
    /// added; nothing if the relation has none. The self link is not among
    /// them.
    pub fn links(&self, rel: &str) -> (links: Option<&Vec<Link>>)
        ensures
            match links {
                Some(group) => lookup(self@.links, rel@) == Some(link_views(group@)),
                None => lookup(self@.links, rel@) is None,
            },
    {
        proof {
            use_type_invariant(self);
            assert(keys_of(self@.links) =~= key_views(self.link_rels@));
        }
        let rel = String::from_str(rel);
        match find_key(&self.link_rels, &rel) {
            Some(p) => Some(&self.link_groups[p]),
            None => None,
        }
    }

    /// The resources embedded under the relation `rel`, in the order in
    /// which they were embedded; nothing if there are none.
    pub fn embedded(&self, rel: &str) -> (resources: Option<&Vec<Resource>>)
        ensures
            match resources {
                Some(group) => lookup(self@.embedded, rel@) == Some(resource_views(group@)),
                None => lookup(self@.embedded, rel@) is None,
            },
    {
        proof {
            use_type_invariant(self);
            assert(keys_of(self@.embedded) =~= key_views(self.embed_rels@));
        }
        let rel = String::from_str(rel);
        match find_key(&self.embed_rels, &rel) {
            Some(p) => Some(&self.embed_groups[p]),
            None => None,
        }
    }

    /// The state attribute stored under `key`, if there is one.
    pub fn state(&self, key: &str) -> (value: Option<&StateValue>)
        ensures
            match value {
                Some(v) => lookup(self@.state, key@) == Some(v@),
                None => lookup(self@.state, key@) is None,
            },
    {
        proof {
            use_type_invariant(self);
            assert(keys_of(self@.state) =~= key_views(self.state_keys@));
        }
        let key = String::from_str(key);
        match find_key(&self.state_keys, &key) {
            Some(p) => Some(&self.state_values[p]),
            None => None,
        }
    }

    /// The keys of the state attributes, in the order in which each first
    /// came.
    pub fn state_keys(&self) -> (keys: &Vec<String>)
        ensures
            key_views(keys@) == keys_of(self@.state),
    {
        proof {
            assert(keys_of(self@.state) =~= key_views(self.state_keys@));
        }
        &self.state_keys
    }
}

} // verus!
