//! What holds of every document and of every projection.

use vstd::prelude::*;
use crate::assoc::{
    distinct, group_of, has_key, keys_of, lemma_has_key, lemma_keys_concat, lemma_lookup_concat,
    lemma_position, lemma_position_concat, lemma_position_distinct, lemma_put_in_group_keys,
    lemma_put_in_group_lookup, lemma_put_keys, lemma_put_lookup, lookup,
};
use crate::document::{
    document, documents, embedded_members, link_members, link_object, link_objects, one_or_many,
    own_members, relation_members, scalar, section, state_members,
};
use crate::json::{member_of, rendered, JsonView};
use crate::number::{has_fraction, is_number};
use crate::link::LinkView;
use crate::model::{
    curies_rel, embedded_key, lemma_add_resource_wf, lemma_reserved_names, links_key,
    reserved_key, self_rel, ResourceView,
};
use crate::projector::{
    project_first, projection, read, ColumnView, ProjectionError, ProjectionView, RowView,
    TypeView,
};
use crate::value::ValueView;

verus! {

/// The top-level members of a document: its state, then its two sections.
proof fn lemma_top_level(doc: ResourceView)
    requires
        doc.wf(),
    ensures
        member_of(document(doc), links_key()) == if link_members(doc).len() > 0 {
            Some(JsonView::Object(link_members(doc)))
        } else {
            None
        },
        member_of(document(doc), embedded_key()) == if doc.embedded.len() > 0 {
            Some(JsonView::Object(embedded_members(doc.embedded)))
        } else {
            None
        },
        forall|key: Seq<char>|
            has_key(keys_of(doc.state), key) ==> member_of(document(doc), key) == match lookup(
                doc.state,
                key,
            ) {
                Some(value) => Some(scalar(value)),
                None => None,
            },
{
    lemma_reserved_names();
    let state = state_members(doc.state);
    let links = section(links_key(), link_members(doc));
    let embedded = section(embedded_key(), embedded_members(doc.embedded));
    assert(keys_of(state) =~= keys_of(doc.state));
    assert(keys_of(links) =~= if link_members(doc).len() > 0 {
        seq![links_key()]
    } else {
        Seq::empty()
    });
    assert(keys_of(embedded) =~= if doc.embedded.len() > 0 {
        seq![embedded_key()]
    } else {
        Seq::empty()
    });
    lemma_position(keys_of(links), links_key());
    lemma_position(keys_of(links), embedded_key());
    lemma_position(keys_of(embedded), embedded_key());
    lemma_position(keys_of(embedded), links_key());
    lemma_lookup_concat(state + links, embedded, links_key());
    lemma_lookup_concat(state, links, links_key());
    lemma_lookup_concat(state + links, embedded, embedded_key());
    lemma_lookup_concat(state, links, embedded_key());
    lemma_keys_concat(state, links);
    lemma_position_concat(keys_of(state), keys_of(links), links_key());
    lemma_position_concat(keys_of(state), keys_of(links), embedded_key());
    assert forall|key: Seq<char>| has_key(keys_of(doc.state), key) implies member_of(
        document(doc),
        key,
    ) == match lookup(doc.state, key) {
        Some(value) => Some(scalar(value)),
        None => None,
    } by {
        lemma_lookup_concat(state + links, embedded, key);
        lemma_lookup_concat(state, links, key);
        lemma_position_concat(keys_of(state), keys_of(links), key);
        lemma_position(keys_of(state), key);
    }
}

/// No object of a document has one key twice: not the document itself,
/// whose state attributes never bear the key of a section, nor its link
/// section, nor its section of embedded resources.
pub proof fn law_keys_differ(doc: ResourceView)
    requires
        doc.wf(),
    ensures
        document(doc) matches JsonView::Object(members) && distinct(keys_of(members)),
        distinct(keys_of(link_members(doc))),
        distinct(keys_of(embedded_members(doc.embedded))),
{
    lemma_reserved_names();
    let state = state_members(doc.state);
    let links = section(links_key(), link_members(doc));
    let embedded = section(embedded_key(), embedded_members(doc.embedded));
    let top = state + links + embedded;
    let keys = keys_of(top);
    lemma_has_key(keys_of(doc.state), links_key());
    lemma_has_key(keys_of(doc.state), embedded_key());
    assert forall|i: int, j: int| 0 <= i < j < keys.len() implies keys[i] != keys[j] by {
        if j < state.len() {
            assert(keys[i] == keys_of(doc.state)[i] && keys[j] == keys_of(doc.state)[j]);
        } else if i < state.len() {
            assert(keys[i] == keys_of(doc.state)[i]);
            assert(keys[j] == links_key() || keys[j] == embedded_key());
        } else {
            assert(keys[i] == links_key() && keys[j] == embedded_key());
        }
    }
    let head = own_members(doc);
    let relations = relation_members(doc.links);
    let section_keys = keys_of(link_members(doc));
    lemma_has_key(keys_of(doc.links), self_rel());
    lemma_has_key(keys_of(doc.links), curies_rel());
    assert forall|i: int, j: int| 0 <= i < j < section_keys.len() implies section_keys[i]
        != section_keys[j] by {
        if i >= head.len() {
            assert(section_keys[i] == keys_of(doc.links)[i - head.len()]);
            assert(section_keys[j] == keys_of(doc.links)[j - head.len()]);
        } else if j >= head.len() {
            assert(section_keys[j] == keys_of(doc.links)[j - head.len()]);
            assert(section_keys[i] == self_rel() || section_keys[i] == curies_rel());
        } else {
            assert(section_keys[i] == self_rel() && section_keys[j] == curies_rel());
        }
    }
    assert(keys_of(embedded_members(doc.embedded)) =~= keys_of(doc.embedded));
}

/// A float that is finite is written as a number with a fraction part: its
/// text is a JSON number in which a decimal point follows the integer part.
/// One that is not finite is written as null.
pub proof fn law_floats_have_fractions(doc: ResourceView, i: int)
    requires
        doc.wf(),
        0 <= i < doc.state.len(),
        doc.state[i].1 is Float,
    ensures
        member_of(document(doc), doc.state[i].0) == Some(scalar(doc.state[i].1)),
        match doc.state[i].1->Float_0 {
            Some(numeral) => scalar(doc.state[i].1) == JsonView::Number(numeral) && rendered(
                scalar(doc.state[i].1),
            ) == numeral && is_number(numeral) && has_fraction(numeral),
            None => scalar(doc.state[i].1) == JsonView::Null,
        },
{
    lemma_top_level(doc);
    lemma_position_distinct(keys_of(doc.state), i);
    assert(keys_of(doc.state)[i] == doc.state[i].0);
}

/// Under a relation with exactly one link stands the object of that link;
/// under a relation with more stands the array of their objects, in the
/// order in which the links were added.
pub proof fn law_relation_one_or_many(doc: ResourceView, i: int)
    requires
        doc.wf(),
        0 <= i < doc.links.len(),
    ensures
        member_of(document(doc), links_key()) matches Some(links) && member_of(
            links,
            doc.links[i].0,
        ) == Some(one_or_many(link_objects(doc.links[i].1))),
        doc.links[i].1.len() == 1 ==> one_or_many(link_objects(doc.links[i].1)) == link_object(
            doc.links[i].1[0],
        ),
        doc.links[i].1.len() != 1 ==> one_or_many(link_objects(doc.links[i].1))
            == JsonView::Array(link_objects(doc.links[i].1)),
        link_objects(doc.links[i].1).len() == doc.links[i].1.len(),
        forall|k: int|
            0 <= k < doc.links[i].1.len() ==> link_objects(doc.links[i].1)[k] == link_object(
                doc.links[i].1[k],
            ),
{
    lemma_top_level(doc);
    lemma_reserved_names();
    let rel = doc.links[i].0;
    let head = own_members(doc);
    let relations = relation_members(doc.links);
    assert(relations[i] == (rel, one_or_many(link_objects(doc.links[i].1))));
    assert(keys_of(relations) =~= keys_of(doc.links));
    lemma_has_key(keys_of(doc.links), self_rel());
    lemma_has_key(keys_of(doc.links), curies_rel());
    assert(keys_of(doc.links)[i] == rel);
    assert(rel != self_rel() && rel != curies_rel());
    assert(!has_key(keys_of(head), rel)) by {
        lemma_has_key(keys_of(head), rel);
        assert forall|j: int| 0 <= j < keys_of(head).len() implies keys_of(head)[j] != rel by {
            assert(keys_of(head)[j] == self_rel() || keys_of(head)[j] == curies_rel());
        }
    }
    lemma_lookup_concat(head, relations, rel);
    lemma_position_distinct(keys_of(doc.links), i);
}

/// Under a relation with exactly one embedded resource stands the document
/// of that resource; under a relation with more stands the array of their
/// documents, in the order in which the resources were embedded.
pub proof fn law_embedded_one_or_many(doc: ResourceView, i: int)
    requires
        doc.wf(),
        0 <= i < doc.embedded.len(),
    ensures
        member_of(document(doc), embedded_key()) matches Some(embedded) && member_of(
            embedded,
            doc.embedded[i].0,
        ) == Some(one_or_many(documents(doc.embedded[i].1))),
        doc.embedded[i].1.len() == 1 ==> one_or_many(documents(doc.embedded[i].1)) == document(
            doc.embedded[i].1[0],
        ),
        doc.embedded[i].1.len() != 1 ==> one_or_many(documents(doc.embedded[i].1))
            == JsonView::Array(documents(doc.embedded[i].1)),
        documents(doc.embedded[i].1).len() == doc.embedded[i].1.len(),
        forall|k: int|
            0 <= k < doc.embedded[i].1.len() ==> documents(doc.embedded[i].1)[k] == document(
                doc.embedded[i].1[k],
            ),
{
    lemma_top_level(doc);
    let members = embedded_members(doc.embedded);
    assert(members[i] == (doc.embedded[i].0, one_or_many(documents(doc.embedded[i].1))));
    assert(keys_of(members) =~= keys_of(doc.embedded));
    lemma_position_distinct(keys_of(doc.embedded), i);
}

/// A link that is added comes last among the links of its relation, and the
/// links of the other relations stay as they are.
pub proof fn law_add_link_appends(
    doc: ResourceView,
    rel: Seq<char>,
    link: LinkView,
    other: Seq<char>,
)
    requires
        rel != self_rel(),
        rel != curies_rel(),
    ensures
        doc.add_link(rel, link) matches Ok(after) && group_of(after.links, other) == if other
            == rel {
            group_of(doc.links, rel).push(link)
        } else {
            group_of(doc.links, other)
        },
{
    lemma_put_in_group_lookup(doc.links, rel, link, other);
}

/// A resource that is embedded comes last among the resources of its
/// relation, and the resources of the other relations stay as they are.
pub proof fn law_add_resource_appends(
    doc: ResourceView,
    rel: Seq<char>,
    child: ResourceView,
    other: Seq<char>,
)
    ensures
        group_of(doc.add_resource(rel, child).embedded, other) == if other == rel {
            group_of(doc.embedded, rel).push(child)
        } else {
            group_of(doc.embedded, other)
        },
{
    lemma_put_in_group_lookup(doc.embedded, rel, child, other);
}

/// Two resources embedded under a relation that had none are written as the
/// array of their two documents, in the order of the two calls.
pub proof fn law_embedded_twice(
    doc: ResourceView,
    rel: Seq<char>,
    first: ResourceView,
    second: ResourceView,
)
    requires
        doc.wf(),
        first.wf(),
        second.wf(),
        !has_key(keys_of(doc.embedded), rel),
    ensures
        member_of(
            document(doc.add_resource(rel, first).add_resource(rel, second)),
            embedded_key(),
        ) matches Some(embedded) && member_of(embedded, rel) == Some(
            JsonView::Array(seq![document(first), document(second)]),
        ),
{
    let once = doc.add_resource(rel, first);
    let twice = once.add_resource(rel, second);
    lemma_add_resource_wf(doc, rel, first);
    lemma_add_resource_wf(once, rel, second);
    let p = doc.embedded.len() as int;
    lemma_position(keys_of(doc.embedded), rel);
    lemma_put_in_group_keys(doc.embedded, rel, first);
    assert(once.embedded == doc.embedded.push((rel, seq![first])));
    assert(keys_of(once.embedded)[p] == rel);
    lemma_position_distinct(keys_of(once.embedded), p);
    assert(twice.embedded[p] == (rel, seq![first].push(second)));
    law_embedded_one_or_many(twice, p);
    assert(documents(twice.embedded[p].1) =~= seq![document(first), document(second)]);
}

/// A state attribute that is stored is found under its key; the attributes
/// under the other keys stay as they are, and so does the order of the
/// keys: a key that was there keeps its slot, a new key comes last.
pub proof fn law_add_state(doc: ResourceView, key: Seq<char>, value: ValueView, other: Seq<char>)
    requires
        !reserved_key(key),
    ensures
        doc.add_state(key, value) matches Ok(after) && lookup(after.state, other) == (if other
            == key {
            Some(value)
        } else {
            lookup(doc.state, other)
        }) && keys_of(after.state) == (if has_key(keys_of(doc.state), key) {
            keys_of(doc.state)
        } else {
            keys_of(doc.state).push(key)
        }),
{
    lemma_put_lookup(doc.state, key, value, other);
    lemma_put_keys(doc.state, key, value);
}

/// The names of the columns, in order.
pub open spec fn column_names(columns: Seq<ColumnView>) -> Seq<Seq<char>> {
    Seq::new(columns.len(), |i: int| columns[i].name)
}

/// Whether the row can be projected: the names of the columns differ from
/// each other and from the keys that a document keeps for itself, and the
/// row has a value of the declared type for each column of a handled type.
pub open spec fn projectable(columns: Seq<ColumnView>, row: RowView) -> bool {
    &&& distinct(column_names(columns))
    &&& forall|i: int| 0 <= i < columns.len() ==> !reserved_key(#[trigger] columns[i].name)
    &&& forall|i: int|
        0 <= i < columns.len() && !(columns[i].declared_type is Other) ==> read(
            row,
            #[trigger] columns[i],
        ) is Some
}

/// The state value that a column gives: what is read from the row, or null
/// for a column of an unhandled type.
pub open spec fn column_value(row: RowView, column: ColumnView) -> ValueView {
    match column.declared_type {
        TypeView::Other(_) => ValueView::Null,
        _ => read(row, column)->Some_0,
    }
}

/// One state attribute for each column, in column order.
pub open spec fn column_state(columns: Seq<ColumnView>, row: RowView) -> Seq<
    (Seq<char>, ValueView),
> {
    Seq::new(columns.len(), |i: int| (columns[i].name, column_value(row, columns[i])))
}

/// One record for each column of an unhandled type, in column order: the
/// name of the column and the tag of its type.
pub open spec fn unhandled(columns: Seq<ColumnView>) -> Seq<(Seq<char>, Seq<char>)>
    decreases columns.len(),
{
    if columns.len() == 0 {
        Seq::empty()
    } else {
        match columns.last().declared_type {
            TypeView::Other(tag) => unhandled(columns.drop_last()).push((columns.last().name, tag)),
            _ => unhandled(columns.drop_last()),
        }
    }
}

/// The number of records that name the column.
pub open spec fn naming(diagnostics: Seq<(Seq<char>, Seq<char>)>, column: Seq<char>) -> nat
    decreases diagnostics.len(),
{
    if diagnostics.len() == 0 {
        0
    } else {
        naming(diagnostics.drop_last(), column) + if diagnostics.last().0 == column {
            1nat
        } else {
            0nat
        }
    }
}

/// Whether a column fails the projection of a row: the row has no value of
/// the declared type under its name, or its name is a key that a document
/// keeps for itself.
pub open spec fn at_fault(row: RowView, column: ColumnView) -> bool {
    ||| !(column.declared_type is Other) && read(row, column) is None
    ||| reserved_key(column.name)
}

/// The error that a column at fault gives: that it cannot be read, if so,
/// and else that its name is reserved.
pub open spec fn fault_of(row: RowView, column: ColumnView, ordinal: int) -> ProjectionError {
    if !(column.declared_type is Other) && read(row, column) is None {
        ProjectionError::Unreadable(ordinal as usize)
    } else {
        ProjectionError::ReservedName(ordinal as usize)
    }
}

proof fn lemma_prefix_faults(columns: Seq<ColumnView>, row: RowView, n: nat)
    requires
        n <= columns.len(),
    ensures
        project_first(columns, row, n) is Ok <==> forall|i: int|
            0 <= i < n ==> !at_fault(row, #[trigger] columns[i]),
        project_first(columns, row, n) matches Err(e) ==> exists|i: int|
            0 <= i < n && at_fault(row, #[trigger] columns[i]) && e == fault_of(row, columns[i], i)
                && forall|j: int| 0 <= j < i ==> !at_fault(row, #[trigger] columns[j]),
    decreases n,
{
    if n > 0 {
        let m = (n - 1) as nat;
        lemma_prefix_faults(columns, row, m);
        match project_first(columns, row, m) {
            Ok(so_far) => {
                if at_fault(row, columns[n - 1]) {
                    assert(project_first(columns, row, n) == Err::<
                        ProjectionView,
                        ProjectionError,
                    >(fault_of(row, columns[n - 1], n - 1)));
                }
            },
            Err(e) => {
                let i = choose|i: int|
                    0 <= i < m && at_fault(row, #[trigger] columns[i]) && e == fault_of(
                        row,
                        columns[i],
                        i,
                    ) && forall|j: int| 0 <= j < i ==> !at_fault(row, #[trigger] columns[j]);
                assert(0 <= i < n && at_fault(row, columns[i]));
            },
        }
    }
}

/// A row is projected if and only if no column is at fault. If one is, the
/// projection fails with the error of the first such column, which bears
/// its place.
pub proof fn law_first_fault_decides(columns: Seq<ColumnView>, row: RowView)
    ensures
        projection(columns, row) is Ok <==> forall|i: int|
            0 <= i < columns.len() ==> !at_fault(row, #[trigger] columns[i]),
        projection(columns, row) matches Err(e) ==> exists|i: int|
            0 <= i < columns.len() && at_fault(row, #[trigger] columns[i]) && e == fault_of(
                row,
                columns[i],
                i,
            ) && forall|j: int| 0 <= j < i ==> !at_fault(row, #[trigger] columns[j]),
{
    lemma_prefix_faults(columns, row, columns.len());
}

proof fn lemma_projectable_prefix(columns: Seq<ColumnView>, row: RowView, n: nat)
    requires
        projectable(columns, row),
        n <= columns.len(),
    ensures
        project_first(columns, row, n) == Ok::<ProjectionView, ProjectionError>(
            ProjectionView {
                document: ResourceView {
                    state: column_state(columns.take(n as int), row),
                    ..ResourceView::empty()
                },
                diagnostics: unhandled(columns.take(n as int)),
            },
        ),
    decreases n,
{
    if n == 0 {
        assert(column_state(columns.take(0), row) =~= Seq::empty());
    } else {
        let m = (n - 1) as nat;
        lemma_projectable_prefix(columns, row, m);
        let before = columns.take(m as int);
        let now = columns.take(n as int);
        let column = columns[n - 1];
        let state = column_state(before, row);
        assert(now.drop_last() =~= before);
        assert(now.last() == column);
        assert(!has_key(keys_of(state), column.name)) by {
            lemma_has_key(keys_of(state), column.name);
            assert forall|j: int| 0 <= j < keys_of(state).len() implies keys_of(state)[j]
                != column.name by {
                assert(keys_of(state)[j] == column_names(columns)[j]);
                assert(column.name == column_names(columns)[n - 1]);
            }
        }
        lemma_position(keys_of(state), column.name);
        assert(column_state(now, row) =~= state.push((column.name, column_value(row, column))));
    }
}

proof fn lemma_only_state(columns: Seq<ColumnView>, row: RowView, n: nat)
    ensures
        project_first(columns, row, n) matches Ok(p) ==> p.document == (ResourceView {
            state: p.document.state,
            ..ResourceView::empty()
        }),
    decreases n,
{
    if n > 0 {
        lemma_only_state(columns, row, (n - 1) as nat);
    }
}

proof fn lemma_naming(columns: Seq<ColumnView>, column: Seq<char>)
    requires
        distinct(column_names(columns)),
    ensures
        naming(unhandled(columns), column) == if exists|i: int|
            0 <= i < columns.len() && columns[i].name == column
                && columns[i].declared_type is Other {
            1nat
        } else {
            0nat
        },
    decreases columns.len(),
{
    if columns.len() > 0 {
        let rest = columns.drop_last();
        let last = columns.last();
        assert forall|i: int, j: int| 0 <= i < j < rest.len() implies column_names(rest)[i]
            != column_names(rest)[j] by {
            assert(column_names(rest)[i] == column_names(columns)[i]);
            assert(column_names(rest)[j] == column_names(columns)[j]);
        }
        lemma_naming(rest, column);
        let in_rest = exists|i: int|
            0 <= i < rest.len() && rest[i].name == column && rest[i].declared_type is Other;
        let in_all = exists|i: int|
            0 <= i < columns.len() && columns[i].name == column
                && columns[i].declared_type is Other;
        let at_last = last.name == column && last.declared_type is Other;
        if in_rest {
            let i = choose|i: int|
                0 <= i < rest.len() && rest[i].name == column && rest[i].declared_type is Other;
            assert(columns[i] == rest[i]);
            assert(column_names(columns)[i] == column);
            assert(column_names(columns)[columns.len() - 1] == last.name);
            assert(!at_last);
        }
        if at_last {
            assert(columns[columns.len() - 1] == last);
        }
        if in_all && !at_last {
            let i = choose|i: int|
                0 <= i < columns.len() && columns[i].name == column
                    && columns[i].declared_type is Other;
            assert(rest[i] == columns[i]);
        }
        match last.declared_type {
            TypeView::Other(tag) => {
                assert(unhandled(columns).drop_last() =~= unhandled(rest));
            },
            _ => {},
        }
    }
}

/// A projectable row is projected, with exactly one state attribute for
/// each column, in column order, and one record for each column of an
/// unhandled type. The document is written with one top-level member for
/// each column and nothing else: a string for a text column, a whole
/// number for an integer column, a number with a fraction part for a float
/// column whose value is finite, null for a column of an unhandled type.
pub proof fn law_one_attribute_per_column(columns: Seq<ColumnView>, row: RowView)
    requires
        projectable(columns, row),
    ensures
        projection(columns, row) matches Ok(p) && p.document.state == column_state(columns, row)
            && p.diagnostics == unhandled(columns) && document(p.document)
            == JsonView::Object(state_members(column_state(columns, row))),
        state_members(column_state(columns, row)).len() == columns.len(),
        forall|i: int|
            0 <= i < columns.len() ==> {
                let member = #[trigger] state_members(column_state(columns, row))[i];
                &&& member.0 == columns[i].name
                &&& columns[i].declared_type is Text ==> member.1 is Text
                &&& columns[i].declared_type is Int32 ==> member.1 is Int
                &&& columns[i].declared_type is Float64 ==> (member.1 is Number || (member.1 is Null
                    && read(row, columns[i]) == Some(ValueView::Float(None))))
                &&& columns[i].declared_type is Other ==> member.1 is Null
            },
{
    lemma_projectable_prefix(columns, row, columns.len());
    assert(columns.take(columns.len() as int) =~= columns);
    let p = projection(columns, row)->Ok_0;
    let members = state_members(column_state(columns, row));
    assert(link_members(p.document) =~= Seq::empty());
    assert(embedded_members(p.document.embedded) =~= Seq::empty());
    assert(document(p.document)->Object_0 =~= members);
}

/// In the projection of a projectable row, a column of an unhandled type
/// has null under its name, and exactly one record names it; that record
/// bears the tag of its type.
pub proof fn law_unhandled_column(columns: Seq<ColumnView>, row: RowView, i: int)
    requires
        projectable(columns, row),
        0 <= i < columns.len(),
        columns[i].declared_type is Other,
    ensures
        projection(columns, row) matches Ok(p) && lookup(p.document.state, columns[i].name)
            == Some(ValueView::Null) && member_of(document(p.document), columns[i].name) == Some(
            JsonView::Null,
        ) && naming(p.diagnostics, columns[i].name) == 1 && p.diagnostics.contains(
            (columns[i].name, columns[i].declared_type->Other_0),
        ),
{
    law_one_attribute_per_column(columns, row);
    let p = projection(columns, row)->Ok_0;
    let name = columns[i].name;
    assert(keys_of(p.document.state) =~= column_names(columns));
    lemma_position_distinct(column_names(columns), i);
    let members = state_members(column_state(columns, row));
    assert(keys_of(members) =~= column_names(columns));
    assert(members[i].1 == JsonView::Null);
    lemma_naming(columns, name);
    lemma_unhandled_has(columns, i);
}

proof fn lemma_unhandled_has(columns: Seq<ColumnView>, i: int)
    requires
        0 <= i < columns.len(),
        columns[i].declared_type is Other,
    ensures
        unhandled(columns).contains((columns[i].name, columns[i].declared_type->Other_0)),
    decreases columns.len(),
{
    let rest = columns.drop_last();
    let record = (columns[i].name, columns[i].declared_type->Other_0);
    if i == columns.len() - 1 {
        assert(unhandled(columns).last() == record);
    } else {
        assert(rest[i] == columns[i]);
        lemma_unhandled_has(rest, i);
        let k = choose|k: int| 0 <= k < unhandled(rest).len() && unhandled(rest)[k] == record;
        assert(unhandled(columns)[k] == record);
    }
}

/// A projection with a self link added is written as the state attributes
/// of the row, in column order, followed by a link section that holds the
/// self link and nothing else.
pub proof fn law_projection_with_self(columns: Seq<ColumnView>, row: RowView, link: LinkView)
    ensures
        projection(columns, row) matches Ok(p) ==> p.document.add_link(self_rel(), link) matches Ok(
            with_self,
        ) && document(with_self) == JsonView::Object(
            state_members(p.document.state) + seq![
                (links_key(), JsonView::Object(seq![(self_rel(), link_object(link))])),
            ],
        ),
{
    lemma_only_state(columns, row, columns.len());
    if projection(columns, row) is Ok {
        let p = projection(columns, row)->Ok_0;
        let with_self = p.document.add_link(self_rel(), link)->Ok_0;
        assert(link_members(with_self) =~= seq![(self_rel(), link_object(link))]);
        assert(embedded_members(with_self.embedded) =~= Seq::empty());
        assert(document(with_self)->Object_0 =~= state_members(p.document.state) + seq![
            (links_key(), JsonView::Object(seq![(self_rel(), link_object(link))])),
        ]);
    }
}

} // verus!
