//! What holds of the metadata, whatever the database lists.
use crate::catalog::{
    catalog_tree, column_tree, grouped, in_order, joined_by, kind_of, lemma_in_order_is_distinct,
    lemma_order_of_front, lemma_placed_keeps_order, lemma_with_column_keeps_order, listed_object,
    metadata_tree, object_tree, objects_tree, placed, same_object, schema_tree, schemas_tree,
    stands_before, with_column, ColumnRow, ObjectView, SchemaView, TableRow,
};
use crate::json::{no_fields, plain, reads_back, JsonView};
use crate::laws::{lemma_fits_insert, lemma_ok_reads_back};
use crate::text::{before, lemma_before_is_transitive, lowered};
use vstd::prelude::*;

verus! {

/// The objects after all rows of the list of tables.
pub open spec fn listed(tables: Seq<TableRow>) -> Seq<ObjectView>
    decreases tables.len(),
{
    if tables.len() == 0 {
        Seq::empty()
    } else {
        placed(listed(tables.drop_last()), listed_object(tables.last()))
    }
}

/// The objects after all rows of the list of columns.
pub open spec fn with_columns(objects: Seq<ObjectView>, columns: Seq<ColumnRow>) -> Seq<ObjectView>
    decreases columns.len(),
{
    if columns.len() == 0 {
        objects
    } else {
        with_column(with_columns(objects, columns.drop_last()), columns.last())
    }
}

/// The columns of one object, in the order in which they were listed.
pub open spec fn columns_of(
    schema: Seq<char>,
    name: Seq<char>,
    columns: Seq<ColumnRow>,
) -> Seq<JsonView>
    decreases columns.len(),
{
    if columns.len() == 0 {
        Seq::empty()
    } else {
        let earlier = columns_of(schema, name, columns.drop_last());
        let row = columns.last();
        if row.schema@ == schema && row.table@ == name {
            earlier.push(column_tree(row))
        } else {
            earlier
        }
    }
}

/// The row of the list of tables at `k` is the last one about an object.
pub open spec fn last_about(
    tables: Seq<TableRow>,
    schema: Seq<char>,
    name: Seq<char>,
    k: int,
) -> bool {
    &&& 0 <= k < tables.len()
    &&& tables[k].schema@ == schema
    &&& tables[k].name@ == name
    &&& forall|i: int|
        k < i < tables.len() ==> !((#[trigger] tables[i]).schema@ == schema && tables[i].name@
            == name)
}

/// An object that took its place is there, and so is every other that was there.
proof fn lemma_placed_holds(objects: Seq<ObjectView>, object: ObjectView, other: ObjectView)
    requires
        in_order(objects),
    ensures
        placed(objects, object).contains(object),
        objects.contains(other) && !same_object(other, object) ==> placed(
            objects,
            object,
        ).contains(other),
    decreases objects.len(),
{
    let result = placed(objects, object);
    if objects.len() == 0 || stands_before(objects.last(), object) {
        assert(result.last() == object);
        if objects.contains(other) {
            let i = objects.index_of(other);
            assert(result[i] == other);
        }
    } else if same_object(objects.last(), object) {
        assert(result.last() == object);
        if objects.contains(other) && !same_object(other, object) {
            let i = objects.index_of(other);
            assert(result[i] == other);
        }
    } else {
        let front = objects.drop_last();
        lemma_order_of_front(objects);
        lemma_placed_holds(front, object, other);
        let inner = placed(front, object);
        let k = inner.index_of(object);
        assert(result[k] == object);
        if objects.contains(other) && !same_object(other, object) {
            let i = objects.index_of(other);
            if i == objects.len() - 1 {
                assert(result[inner.len() as int] == other);
            } else {
                assert(front[i] == other);
                let m = inner.index_of(other);
                assert(result[m] == other);
            }
        }
    }
}

/// Whatever rows come, and in whatever order, the objects stand in the order of their schemas and
/// names, and none stands there twice.
pub proof fn law_metadata_is_in_order(tables: Seq<TableRow>, columns: Seq<ColumnRow>)
    ensures
        in_order(listed(tables)),
        in_order(with_columns(listed(tables), columns)),
    decreases tables.len(), columns.len(),
{
    if columns.len() > 0 {
        law_metadata_is_in_order(tables, columns.drop_last());
        lemma_with_column_keeps_order(
            with_columns(listed(tables), columns.drop_last()),
            columns.last(),
        );
    } else if tables.len() > 0 {
        law_metadata_is_in_order(tables.drop_last(), columns);
        lemma_placed_keeps_order(listed(tables.drop_last()), listed_object(tables.last()));
    }
}

/// Every object that was listed is there, as the last row about it says.
pub proof fn law_every_listed_object_is_there(
    tables: Seq<TableRow>,
    schema: Seq<char>,
    name: Seq<char>,
    k: int,
)
    requires
        last_about(tables, schema, name, k),
    ensures
        listed(tables).contains(
            ObjectView {
                schema,
                name,
                kind: kind_of(tables[k].table_type@),
                columns: Seq::empty(),
            },
        ),
    decreases tables.len(),
{
    let object = listed_object(tables[k]);
    let front = tables.drop_last();
    law_metadata_is_in_order(front, Seq::empty());
    lemma_placed_holds(listed(front), listed_object(tables.last()), object);
    if k < tables.len() - 1 {
        assert(last_about(front, schema, name, k)) by {
            assert forall|i: int| k < i < front.len() implies !((#[trigger] front[i]).schema@
                == schema && front[i].name@ == name) by {
                assert(front[i] == tables[i]);
            }
        }
        law_every_listed_object_is_there(front, schema, name, k);
        assert(front[k] == tables[k]);
        assert(tables[tables.len() - 1] == tables.last());
    }
}

/// No object is there that was not listed, and each is what the last row about it says.
pub proof fn law_only_listed_objects_are_there(tables: Seq<TableRow>, object: ObjectView)
    requires
        listed(tables).contains(object),
    ensures
        exists|k: int|
            last_about(tables, object.schema, object.name, k) && object == listed_object(
                #[trigger] tables[k],
            ),
    decreases tables.len(),
{
    let front = tables.drop_last();
    let row = tables.last();
    let last = listed_object(row);
    law_metadata_is_in_order(tables, Seq::empty());
    law_metadata_is_in_order(front, Seq::empty());
    lemma_placed_keeps_order(listed(front), last);
    lemma_placed_holds(listed(front), last, object);
    let all = listed(tables);
    let at = all.index_of(object);
    if same_object(object, last) {
        let m = all.index_of(last);
        if m != at {
            lemma_in_order_is_distinct(all, at, m);
        }
        let k = tables.len() - 1;
        assert(tables[k] == row);
        assert(last_about(tables, object.schema, object.name, k));
    } else {
        assert(all[at] == object);
        assert(listed(front).contains(object));
        law_only_listed_objects_are_there(front, object);
        let k = choose|k: int|
            last_about(front, object.schema, object.name, k) && object == listed_object(
                #[trigger] front[k],
            );
        assert(tables[k] == front[k]);
        assert(last_about(tables, object.schema, object.name, k)) by {
            assert forall|i: int| k < i < tables.len() implies !((#[trigger] tables[i]).schema@
                == object.schema && tables[i].name@ == object.name) by {
                if i < front.len() {
                    assert(tables[i] == front[i]);
                }
            }
        }
    }
}

/// An object's columns are those that were listed for it, in the order in which they were listed;
/// nothing else of it changes, and a column of an object that was not listed goes nowhere.
pub proof fn law_columns_go_to_their_object(objects: Seq<ObjectView>, columns: Seq<ColumnRow>)
    ensures
        with_columns(objects, columns).len() == objects.len(),
        forall|i: int|
            0 <= i < objects.len() ==> #[trigger] with_columns(objects, columns)[i] == (ObjectView {
                columns: objects[i].columns + columns_of(
                    objects[i].schema,
                    objects[i].name,
                    columns,
                ),
                ..objects[i]
            }),
    decreases columns.len(),
{
    if columns.len() > 0 {
        let front = columns.drop_last();
        law_columns_go_to_their_object(objects, front);
        assert forall|i: int| 0 <= i < objects.len() implies #[trigger] with_columns(
            objects,
            columns,
        )[i] == (ObjectView {
            columns: objects[i].columns + columns_of(objects[i].schema, objects[i].name, columns),
            ..objects[i]
        }) by {
            let earlier = with_columns(objects, front)[i];
            let more = columns_of(objects[i].schema, objects[i].name, front);
            assert(earlier.columns == objects[i].columns + more);
            assert((objects[i].columns + more).push(column_tree(columns.last()))
                =~= objects[i].columns + more.push(column_tree(columns.last())));
        }
    } else {
        assert forall|i: int| 0 <= i < objects.len() implies #[trigger] with_columns(
            objects,
            columns,
        )[i] == (ObjectView {
            columns: objects[i].columns + columns_of(objects[i].schema, objects[i].name, columns),
            ..objects[i]
        }) by {
            assert(objects[i].columns + Seq::<JsonView>::empty() =~= objects[i].columns);
        }
    }
}

/// The objects of all groups, one group behind the other.
pub open spec fn ungrouped(groups: Seq<SchemaView>) -> Seq<ObjectView>
    decreases groups.len(),
{
    if groups.len() == 0 {
        Seq::empty()
    } else {
        ungrouped(groups.drop_last()) + groups.last().objects
    }
}

/// A group has objects, and all of them are of its schema.
pub open spec fn sound_group(group: SchemaView) -> bool {
    &&& group.objects.len() > 0
    &&& forall|i: int| 0 <= i < group.objects.len() ==> (#[trigger] group.objects[i]).schema
        == group.name
}

/// Objects in order come out in groups, one for each schema, in the order of the schemas: no schema
/// has two groups, none is empty, each object stands in the group of its schema, and the groups one
/// behind the other are the objects again.
pub proof fn law_schemas_group_their_objects(objects: Seq<ObjectView>)
    requires
        in_order(objects),
    ensures
        ungrouped(grouped(objects)) == objects,
        forall|i: int| 0 <= i < grouped(objects).len() ==> sound_group(#[trigger] grouped(objects)[i]),
        forall|i: int, j: int|
            0 <= i < j < grouped(objects).len() ==> before(
                (#[trigger] grouped(objects)[i]).name,
                (#[trigger] grouped(objects)[j]).name,
            ),
    decreases objects.len(),
{
    if objects.len() > 0 {
        let front = objects.drop_last();
        let object = objects.last();
        lemma_order_of_front(objects);
        law_schemas_group_their_objects(front);
        let groups = grouped(front);
        let result = grouped(objects);
        assert(result == joined_by(groups, object));
        assert(front.push(object) =~= objects);
        if groups.len() > 0 {
            let last = groups.last();
            assert(last == groups[groups.len() - 1]);
            assert(sound_group(last));
            lemma_last_of_groups(groups);
            assert(front.len() > 0);
            assert(front.last().schema == last.name);
            assert(stands_before(objects[front.len() - 1], objects[front.len() as int]));
            if last.name == object.schema {
                let more = SchemaView { name: object.schema, objects: last.objects.push(object) };
                assert(result.drop_last() =~= groups.drop_last());
                assert(result.last() == more);
                assert(ungrouped(result) =~= ungrouped(groups).push(object));
                assert forall|i: int| 0 <= i < result.len() implies sound_group(
                    #[trigger] result[i],
                ) by {
                    if i < groups.len() - 1 {
                        assert(result[i] == groups[i]);
                    }
                }
                assert forall|i: int, j: int| 0 <= i < j < result.len() implies before(
                    (#[trigger] result[i]).name,
                    (#[trigger] result[j]).name,
                ) by {
                    assert(before(groups[i].name, groups[j].name));
                }
            } else {
                lemma_group_of_its_own(groups, object);
                assert forall|i: int, j: int| 0 <= i < j < result.len() implies before(
                    (#[trigger] result[i]).name,
                    (#[trigger] result[j]).name,
                ) by {
                    if j < groups.len() {
                        assert(before(groups[i].name, groups[j].name));
                    } else if i < groups.len() - 1 {
                        assert(before(groups[i].name, groups[groups.len() - 1].name));
                        lemma_before_is_transitive(
                            groups[i].name,
                            last.name,
                            object.schema,
                        );
                    }
                }
            }
        } else {
            lemma_group_of_its_own(groups, object);
        }
    } else {
        assert(ungrouped(grouped(objects)) =~= objects);
    }
}

/// A new group behind the others.
proof fn lemma_group_of_its_own(groups: Seq<SchemaView>, object: ObjectView)
    requires
        forall|i: int| 0 <= i < groups.len() ==> sound_group(#[trigger] groups[i]),
    ensures
        ({
            let group = SchemaView { name: object.schema, objects: seq![object] };
            let result = groups.push(group);
            &&& ungrouped(result) == ungrouped(groups).push(object)
            &&& forall|i: int| 0 <= i < result.len() ==> sound_group(#[trigger] result[i])
        }),
{
    let group = SchemaView { name: object.schema, objects: seq![object] };
    let result = groups.push(group);
    assert(result.drop_last() =~= groups);
    assert(ungrouped(result) =~= ungrouped(groups).push(object));
    assert(sound_group(group));
}

/// The last object of all groups is the last of the last group.
proof fn lemma_last_of_groups(groups: Seq<SchemaView>)
    requires
        groups.len() > 0,
        sound_group(groups.last()),
    ensures
        ungrouped(groups).len() > 0,
        ungrouped(groups).last() == groups.last().objects.last(),
{
}

/// A column in JSON is an object of plain values.
proof fn lemma_column_is_plain(row: ColumnRow, depth: nat)
    requires
        depth > 0,
    ensures
        plain(column_tree(row), depth),
{
    let nullable = JsonView::Bool(lowered(row.nullable@) == lowered("YES"@));
    let a = no_fields().insert("name"@, JsonView::Str(row.name@));
    lemma_fits_insert(no_fields(), "name"@, JsonView::Str(row.name@), depth, false);
    let b = a.insert("dataType"@, JsonView::Str(row.data_type@));
    lemma_fits_insert(a, "dataType"@, JsonView::Str(row.data_type@), depth, false);
    let c = b.insert("nullable"@, nullable);
    lemma_fits_insert(b, "nullable"@, nullable, depth, false);
    lemma_fits_insert(c, "ordinal"@, JsonView::Int(row.ordinal as int), depth, false);
}

proof fn lemma_columns_are_plain(
    schema: Seq<char>,
    name: Seq<char>,
    columns: Seq<ColumnRow>,
    depth: nat,
)
    requires
        depth > 0,
    ensures
        forall|j: int|
            0 <= j < columns_of(schema, name, columns).len() ==> plain(
                #[trigger] columns_of(schema, name, columns)[j],
                depth,
            ),
    decreases columns.len(),
{
    if columns.len() > 0 {
        let front = columns_of(schema, name, columns.drop_last());
        let all = columns_of(schema, name, columns);
        lemma_columns_are_plain(schema, name, columns.drop_last(), depth);
        lemma_column_is_plain(columns.last(), depth);
        assert forall|j: int| 0 <= j < all.len() implies plain(#[trigger] all[j], depth) by {
            if j < front.len() {
                assert(all[j] == front[j]);
            }
        }
    }
}

/// An object in JSON is plain where its columns are.
proof fn lemma_object_is_plain(object: ObjectView, depth: nat)
    requires
        depth >= 2,
        forall|j: int|
            0 <= j < object.columns.len() ==> plain(
                #[trigger] object.columns[j],
                (depth - 2) as nat,
            ),
    ensures
        plain(object_tree(object), depth),
{
    let columns = JsonView::Array(object.columns);
    assert(plain(columns, (depth - 1) as nat));
    let a = no_fields().insert("schema"@, JsonView::Str(object.schema));
    lemma_fits_insert(no_fields(), "schema"@, JsonView::Str(object.schema), depth, false);
    let b = a.insert("name"@, JsonView::Str(object.name));
    lemma_fits_insert(a, "name"@, JsonView::Str(object.name), depth, false);
    let c = b.insert("kind"@, JsonView::Str(object.kind));
    lemma_fits_insert(b, "kind"@, JsonView::Str(object.kind), depth, false);
    lemma_fits_insert(c, "columns"@, columns, depth, false);
}

/// Each object of each group is one of the objects that were grouped.
pub proof fn lemma_groups_hold_objects(groups: Seq<SchemaView>, i: int, j: int)
    requires
        0 <= i < groups.len(),
        0 <= j < groups[i].objects.len(),
    ensures
        ungrouped(groups).contains(groups[i].objects[j]),
    decreases groups.len(),
{
    let front = groups.drop_last();
    let all = ungrouped(groups);
    if i < front.len() {
        lemma_groups_hold_objects(front, i, j);
        let m = ungrouped(front).index_of(groups[i].objects[j]);
        assert(all[m] == groups[i].objects[j]);
    } else {
        assert(all[ungrouped(front).len() + j] == groups[i].objects[j]);
    }
}

/// The metadata in a reply can be read back, whatever the database lists.
pub proof fn law_metadata_reads_back(
    connection_id: Seq<char>,
    tables: Seq<TableRow>,
    columns: Seq<ColumnRow>,
)
    ensures
        reads_back(metadata_tree(connection_id, with_columns(listed(tables), columns))),
{
    let objects = with_columns(listed(tables), columns);
    law_metadata_is_in_order(tables, columns);
    law_columns_go_to_their_object(listed(tables), columns);
    law_schemas_group_their_objects(objects);
    let groups = grouped(objects);
    assert forall|k: int| 0 <= k < objects.len() implies plain(
        object_tree(#[trigger] objects[k]),
        122,
    ) by {
        let bare = listed(tables)[k];
        assert(listed(tables).contains(bare));
        law_only_listed_objects_are_there(tables, bare);
        assert(bare.columns =~= Seq::<JsonView>::empty());
        lemma_columns_are_plain(bare.schema, bare.name, columns, 120);
        assert(objects[k].columns =~= columns_of(bare.schema, bare.name, columns));
        lemma_object_is_plain(objects[k], 122);
    }
    assert forall|i: int| 0 <= i < groups.len() implies plain(
        #[trigger] schemas_tree(groups)[i],
        124,
    ) by {
        let group = groups[i];
        assert(schemas_tree(groups)[i] == schema_tree(group));
        assert forall|j: int| 0 <= j < group.objects.len() implies plain(
            #[trigger] objects_tree(group.objects)[j],
            122,
        ) by {
            lemma_groups_hold_objects(groups, i, j);
            let k = objects.index_of(group.objects[j]);
            assert(objects[k] == group.objects[j]);
            assert(objects_tree(group.objects)[j] == object_tree(objects[k]));
        }
        let inner = JsonView::Array(objects_tree(group.objects));
        assert(plain(inner, 123));
        let a = no_fields().insert("name"@, JsonView::Str(group.name));
        lemma_fits_insert(no_fields(), "name"@, JsonView::Str(group.name), 124, false);
        lemma_fits_insert(a, "objects"@, inner, 124, false);
    }
    let schemas = JsonView::Array(schemas_tree(groups));
    assert(plain(schemas, 125));
    lemma_fits_insert(no_fields(), "schemas"@, schemas, 126, false);
    assert(plain(catalog_tree(objects), 126));
    let id = no_fields().insert("connectionId"@, JsonView::Str(connection_id));
    lemma_fits_insert(no_fields(), "connectionId"@, JsonView::Str(connection_id), 127, false);
    lemma_fits_insert(id, "metadata"@, catalog_tree(objects), 127, false);
    lemma_ok_reads_back(id.insert("metadata"@, catalog_tree(objects)));
}

}
