//! The mathematical model of a resource document, and what each operation on
//! a document means.

use vstd::prelude::*;
use crate::assoc::{
    distinct, has_key, keys_of, lemma_position, lemma_push_key, lemma_put_in_group_keys,
    lemma_put_keys, position, put, put_in_group,
};
use crate::link::{CurieView, LinkView};
use crate::value::ValueView;

verus! {

/// Why a document refused an operation.
#[derive(Debug, Clone, Copy, PartialEq, Eq)]
pub enum DocumentError {
    /// The document already has a self link.
    SelfLinkAlreadySet,
    /// The relation name is kept for the curies of the document.
    ReservedRelation,
    /// The state key is one under which the document writes its links or
    /// its embedded resources.
    ReservedKey,
}

/// The relation of the self link.
pub open spec fn self_rel() -> Seq<char> {
    "self"@
}

/// The relation under which the curies are written.
pub open spec fn curies_rel() -> Seq<char> {
    "curies"@
}

/// The key under which the links of a document are written.
pub open spec fn links_key() -> Seq<char> {
    "_links"@
}

/// The key under which the embedded resources of a document are written.
pub open spec fn embedded_key() -> Seq<char> {
    "_embedded"@
}

/// Whether a state attribute may not have this key.
pub open spec fn reserved_key(key: Seq<char>) -> bool {
    key == links_key() || key == embedded_key()
}

/// The mathematical value of a resource document.
pub struct ResourceView {
    /// The self link, if set.
    pub self_link: Option<LinkView>,
    /// The curies, in the order in which they were added.
    pub curies: Seq<CurieView>,
    /// The links of each relation but `self`, relations in the order in which
    /// each first came, links in the order in which they were added.
    pub links: Seq<(Seq<char>, Seq<LinkView>)>,
    /// The embedded resources of each relation, ordered likewise.
    pub embedded: Seq<(Seq<char>, Seq<ResourceView>)>,
    /// The state attributes, in the order in which each key first came.
    pub state: Seq<(Seq<char>, ValueView)>,
}

impl ResourceView {
    /// The document with nothing in it.
    pub open spec fn empty() -> ResourceView {
        ResourceView {
            self_link: None,
            curies: Seq::empty(),
            links: Seq::empty(),
            embedded: Seq::empty(),
            state: Seq::empty(),
        }
    }

    /// Sets the self link; refused if there is one already.
    pub open spec fn set_self(self, link: LinkView) -> Result<ResourceView, DocumentError> {
        if self.self_link is Some {
            Err(DocumentError::SelfLinkAlreadySet)
        } else {
            Ok(ResourceView { self_link: Some(link), ..self })
        }
    }

    /// Sets the self link to a plain link to `href`.
    pub open spec fn with_self(self, href: Seq<char>) -> Result<ResourceView, DocumentError> {
        self.set_self(LinkView::to(href))
    }

    /// Adds `link` at the end of the links of `rel`. The relation `self` sets
    /// the self link; the relation `curies` is refused.
    pub open spec fn add_link(self, rel: Seq<char>, link: LinkView) -> Result<
        ResourceView,
        DocumentError,
    > {
        if rel == self_rel() {
            self.set_self(link)
        } else if rel == curies_rel() {
            Err(DocumentError::ReservedRelation)
        } else {
            Ok(ResourceView { links: put_in_group(self.links, rel, link), ..self })
        }
    }

    /// Adds a curie at the end of the curies.
    pub open spec fn add_curie(self, prefix: Seq<char>, href_template: Seq<char>) -> ResourceView {
        ResourceView { curies: self.curies.push(CurieView { prefix, href_template }), ..self }
    }

    /// Stores `value` under `key`: in the slot that the key has, or in a new
    /// one at the end. A reserved key is refused.
    pub open spec fn add_state(self, key: Seq<char>, value: ValueView) -> Result<
        ResourceView,
        DocumentError,
    > {
        if reserved_key(key) {
            Err(DocumentError::ReservedKey)
        } else {
            Ok(ResourceView { state: put(self.state, key, value), ..self })
        }
    }

    /// Adds `child` at the end of the resources embedded under `rel`.
    pub open spec fn add_resource(self, rel: Seq<char>, child: ResourceView) -> ResourceView {
        ResourceView { embedded: put_in_group(self.embedded, rel, child), ..self }
    }

    /// What holds of every document that the operations build: each relation
    /// and each state key occurs once, no relation is without a link or a
    /// resource, no name collides with one that the document keeps for
    /// itself, each state value is well-formed, and the embedded resources
    /// are documents of this kind too.
    pub open spec fn wf(self) -> bool
        decreases self,
    {
        &&& distinct(keys_of(self.links))
        &&& !has_key(keys_of(self.links), self_rel())
        &&& !has_key(keys_of(self.links), curies_rel())
        &&& forall|i: int| 0 <= i < self.links.len() ==> (#[trigger] self.links[i]).1.len() > 0
        &&& distinct(keys_of(self.embedded))
        &&& forall|i: int|
            0 <= i < self.embedded.len() ==> (#[trigger] self.embedded[i]).1.len() > 0
        &&& forall|i: int, j: int|
            0 <= i < self.embedded.len() && 0 <= j < self.embedded[i].1.len() ==> (
            #[trigger] self.embedded[i].1[j]).wf()
        &&& distinct(keys_of(self.state))
        &&& forall|i: int| 0 <= i < self.state.len() ==> (#[trigger] self.state[i]).1.wf()
        &&& !has_key(keys_of(self.state), links_key())
        &&& !has_key(keys_of(self.state), embedded_key())
    }
}

/// The names that a document keeps for itself differ from each other.
pub proof fn lemma_reserved_names()
    ensures
        self_rel() != curies_rel(),
        links_key() != embedded_key(),
        self_rel().len() == 4,
        curies_rel().len() == 6,
        links_key().len() == 6,
        embedded_key().len() == 9,
{
    reveal_strlit("self");
    reveal_strlit("curies");
    reveal_strlit("_links");
    reveal_strlit("_embedded");
    assert(self_rel().len() != curies_rel().len());
    assert(links_key().len() != embedded_key().len());
}

/// The empty document is well-formed.
pub proof fn lemma_empty_wf()
    ensures
        ResourceView::empty().wf(),
{
}

/// Setting the self link keeps a document well-formed.
pub proof fn lemma_set_self_wf(doc: ResourceView, link: LinkView)
    requires
        doc.wf(),
    ensures
        doc.set_self(link) matches Ok(after) ==> after.wf(),
{
}

/// Adding a curie keeps a document well-formed.
pub proof fn lemma_add_curie_wf(doc: ResourceView, prefix: Seq<char>, href_template: Seq<char>)
    requires
        doc.wf(),
    ensures
        doc.add_curie(prefix, href_template).wf(),
{
}

/// Adding a link keeps a document well-formed.
pub proof fn lemma_add_link_wf(doc: ResourceView, rel: Seq<char>, link: LinkView)
    requires
        doc.wf(),
    ensures
        doc.add_link(rel, link) matches Ok(after) ==> after.wf(),
{
    if rel != self_rel() && rel != curies_rel() {
        let after = doc.add_link(rel, link)->Ok_0;
        let keys = keys_of(doc.links);
        lemma_put_in_group_keys(doc.links, rel, link);
        lemma_position(keys, rel);
        if !has_key(keys, rel) {
            lemma_push_key(keys, rel);
        }
        assert forall|i: int| 0 <= i < after.links.len() implies (#[trigger] after.links[i]).1.len()
            > 0 by {
            if i < doc.links.len() && i != position(keys, rel) {
                assert(after.links[i] == doc.links[i]);
            }
        }
    }
}

/// Storing a well-formed state attribute keeps a document well-formed.
pub proof fn lemma_add_state_wf(doc: ResourceView, key: Seq<char>, value: ValueView)
    requires
        doc.wf(),
        value.wf(),
    ensures
        doc.add_state(key, value) matches Ok(after) ==> after.wf(),
{
    if !reserved_key(key) {
        let keys = keys_of(doc.state);
        lemma_put_keys(doc.state, key, value);
        lemma_position(keys, key);
        if !has_key(keys, key) {
            lemma_push_key(keys, key);
        }
        let after = doc.add_state(key, value)->Ok_0;
        assert forall|i: int| 0 <= i < after.state.len() implies (#[trigger] after.state[i]).1.wf() by {
            if i < doc.state.len() && i != position(keys, key) {
                assert(after.state[i] == doc.state[i]);
            }
        }
    }
}

/// Embedding a well-formed document keeps a document well-formed.
pub proof fn lemma_add_resource_wf(doc: ResourceView, rel: Seq<char>, child: ResourceView)
    requires
        doc.wf(),
        child.wf(),
    ensures
        doc.add_resource(rel, child).wf(),
{
    let after = doc.add_resource(rel, child);
    let keys = keys_of(doc.embedded);
    let p = position(keys, rel);
    lemma_put_in_group_keys(doc.embedded, rel, child);
    lemma_position(keys, rel);
    if !has_key(keys, rel) {
        lemma_push_key(keys, rel);
    }
    assert forall|i: int| 0 <= i < after.embedded.len() implies (
    #[trigger] after.embedded[i]).1.len() > 0 by {
        if i < doc.embedded.len() && i != p {
            assert(after.embedded[i] == doc.embedded[i]);
        }
    }
    assert forall|i: int, j: int|
        0 <= i < after.embedded.len() && 0 <= j < after.embedded[i].1.len() implies (
    #[trigger] after.embedded[i].1[j]).wf() by {
        if i < doc.embedded.len() && i != p {
            assert(after.embedded[i] == doc.embedded[i]);
            assert(doc.embedded[i].1[j].wf());
        } else if i < doc.embedded.len() {
            if j < doc.embedded[i].1.len() {
                assert(after.embedded[i].1[j] == doc.embedded[i].1[j]);
                assert(doc.embedded[i].1[j].wf());
            }
        }
    }
}

} // verus!
