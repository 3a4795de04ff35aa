//! What holds of the metadata in JSON: what it shows of the lists that the database gave.
use crate::catalog::{
    catalog_tree, column_tree, grouped, kind_of, listed_object, object_tree, objects_tree,
    schema_tree, schemas_tree, stands_before, ColumnRow, ObjectView, SchemaView, TableRow,
};
use crate::catalog_laws::{
    columns_of, last_about, law_columns_go_to_their_object, law_every_listed_object_is_there,
    law_metadata_is_in_order, law_only_listed_objects_are_there, law_schemas_group_their_objects,
    lemma_groups_hold_objects, listed, sound_group, ungrouped, with_columns,
};
use crate::json::{field, JsonView};
use crate::text::{before, lowered};
use vstd::prelude::*;

verus! {

/// A column shows its own name, its own data type, its own place, and that it is nullable exactly where
/// the list says `YES` in whatever case; and nothing else.
pub open spec fn shows_column(tree: JsonView, row: ColumnRow) -> bool {
    &&& field(tree, "name"@) == Some(JsonView::Str(row.name@))
    &&& field(tree, "dataType"@) == Some(JsonView::Str(row.data_type@))
    &&& field(tree, "nullable"@) == Some(JsonView::Bool(lowered(row.nullable@) == "yes"@))
    &&& field(tree, "ordinal"@) == Some(JsonView::Int(row.ordinal as int))
    &&& forall|name: Seq<char>| #[trigger]
        field(tree, name) is Some ==> name == "name"@ || name == "dataType"@ || name
            == "nullable"@ || name == "ordinal"@
}

/// Every column shows what its row says, so that two rows that say different things of a column look
/// different.
pub proof fn law_columns_show_what_their_row_says(row: ColumnRow, other: ColumnRow)
    ensures
        shows_column(column_tree(row), row),
        row.name@ != other.name@ || row.data_type@ != other.data_type@ || row.ordinal
            != other.ordinal ==> column_tree(row) != column_tree(other),
{
    lemma_column_names_differ();
    lemma_yes_in_lower_case();
    assert(field(column_tree(other), "name"@) == Some(JsonView::Str(other.name@)));
    assert(field(column_tree(other), "dataType"@) == Some(JsonView::Str(other.data_type@)));
    assert(field(column_tree(other), "ordinal"@) == Some(JsonView::Int(other.ordinal as int)));
}

proof fn lemma_column_names_differ()
    ensures
        "name"@.len() == 4,
        "ordinal"@.len() == 7,
        "dataType"@.len() == 8 && "dataType"@[0] == 'd',
        "nullable"@.len() == 8 && "nullable"@[0] == 'n',
{
    reveal_strlit("name");
    reveal_strlit("ordinal");
    reveal_strlit("dataType");
    reveal_strlit("nullable");
}

proof fn lemma_yes_in_lower_case()
    ensures
        lowered("YES"@) == "yes"@,
        lowered("VIEW"@) == "view"@,
{
    reveal_strlit("YES");
    reveal_strlit("yes");
    reveal_strlit("VIEW");
    reveal_strlit("view");
    assert(lowered("YES"@) =~= "yes"@);
    assert(lowered("VIEW"@) =~= "view"@);
}

/// What the list calls a view, in whatever case, is a `view`, and everything else is a `table`; these
/// are different words.
pub proof fn law_views_are_told_from_tables(table_type: Seq<char>)
    ensures
        lowered(table_type) == "view"@ ==> kind_of(table_type) == "view"@,
        lowered(table_type) != "view"@ ==> kind_of(table_type) == "table"@,
        "view"@ != "table"@,
{
    lemma_yes_in_lower_case();
    reveal_strlit("view");
    reveal_strlit("table");
    assert("view"@.len() != "table"@.len());
}

/// A row of the list of tables speaks of the object with its schema and its name, of which no column
/// is known yet.
pub proof fn law_listed_objects_are_what_their_row_says(row: TableRow)
    ensures
        listed_object(row).schema == row.schema@,
        listed_object(row).name == row.name@,
        listed_object(row).kind == kind_of(row.table_type@),
        listed_object(row).columns.len() == 0,
{
}

/// An object shows its schema, its name, its kind and its columns; and nothing else.
pub open spec fn shows_object(tree: JsonView, object: ObjectView) -> bool {
    &&& field(tree, "schema"@) == Some(JsonView::Str(object.schema))
    &&& field(tree, "name"@) == Some(JsonView::Str(object.name))
    &&& field(tree, "kind"@) == Some(JsonView::Str(object.kind))
    &&& field(tree, "columns"@) == Some(JsonView::Array(object.columns))
    &&& forall|name: Seq<char>| #[trigger]
        field(tree, name) is Some ==> name == "schema"@ || name == "name"@ || name == "kind"@
            || name == "columns"@
}

/// Every object shows what is known of it.
pub proof fn law_objects_show_what_is_known_of_them(object: ObjectView)
    ensures
        shows_object(object_tree(object), object),
{
    reveal_strlit("schema");
    reveal_strlit("name");
    reveal_strlit("kind");
    reveal_strlit("columns");
    assert("schema"@.len() == 6 && "columns"@.len() == 7);
    assert("name"@.len() == 4 && "name"@[0] == 'n' && "kind"@.len() == 4 && "kind"@[0] == 'k');
}

/// A schema shows its name and its objects, in their order; and nothing else.
pub open spec fn shows_schema(tree: JsonView, schema: SchemaView) -> bool {
    &&& field(tree, "name"@) == Some(JsonView::Str(schema.name))
    &&& field(tree, "objects"@) matches Some(JsonView::Array(objects)) && {
        &&& objects.len() == schema.objects.len()
        &&& forall|j: int|
            0 <= j < objects.len() ==> shows_object(#[trigger] objects[j], schema.objects[j])
    }
    &&& forall|name: Seq<char>| #[trigger]
        field(tree, name) is Some ==> name == "name"@ || name == "objects"@
}

/// Every schema shows its name and its objects.
pub proof fn law_schemas_show_their_objects(schema: SchemaView)
    ensures
        shows_schema(schema_tree(schema), schema),
{
    reveal_strlit("name");
    reveal_strlit("objects");
    assert("name"@.len() != "objects"@.len());
    let objects = objects_tree(schema.objects);
    assert forall|j: int| 0 <= j < objects.len() implies shows_object(
        #[trigger] objects[j],
        schema.objects[j],
    ) by {
        assert(objects[j] == object_tree(schema.objects[j]));
        law_objects_show_what_is_known_of_them(schema.objects[j]);
    }
}

/// The metadata shows the schemas, in their order; and nothing else.
pub proof fn law_metadata_shows_its_schemas(objects: Seq<ObjectView>, name: Seq<char>)
    ensures
        field(catalog_tree(objects), "schemas"@) matches Some(JsonView::Array(schemas)) && {
            &&& schemas.len() == grouped(objects).len()
            &&& forall|i: int|
                0 <= i < schemas.len() ==> shows_schema(#[trigger] schemas[i], grouped(objects)[i])
        },
        field(catalog_tree(objects), name) is Some ==> name == "schemas"@,
{
    let groups = grouped(objects);
    let schemas = schemas_tree(groups);
    assert forall|i: int| 0 <= i < schemas.len() implies shows_schema(
        #[trigger] schemas[i],
        groups[i],
    ) by {
        assert(schemas[i] == schema_tree(groups[i]));
        law_schemas_show_their_objects(groups[i]);
    }
}

/// Whatever the database lists, objects stand by schema and within one by name, each in the order of
/// strings, and no object stands there twice.
pub proof fn law_objects_stand_by_schema_and_name(
    tables: Seq<TableRow>,
    columns: Seq<ColumnRow>,
    i: int,
    j: int,
)
    requires
        0 <= i < j < with_columns(listed(tables), columns).len(),
    ensures
        ({
            let objects = with_columns(listed(tables), columns);
            ||| before(objects[i].schema, objects[j].schema)
            ||| objects[i].schema == objects[j].schema && before(objects[i].name, objects[j].name)
        }),
{
    law_metadata_is_in_order(tables, columns);
    let objects = with_columns(listed(tables), columns);
    assert(stands_before(objects[i], objects[j]));
}

/// Whatever the database lists, schemas stand in the order of strings, and none stands there twice.
pub proof fn law_schemas_stand_in_order(
    tables: Seq<TableRow>,
    columns: Seq<ColumnRow>,
    i: int,
    j: int,
)
    ensures
        ({
            let tree = catalog_tree(with_columns(listed(tables), columns));
            field(tree, "schemas"@) matches Some(JsonView::Array(schemas)) && (0 <= i < j
                < schemas.len() ==> {
                let first = field(schemas[i], "name"@);
                let second = field(schemas[j], "name"@);
                &&& first matches Some(JsonView::Str(_))
                &&& second matches Some(JsonView::Str(_))
                &&& before(first->Some_0->Str_0, second->Some_0->Str_0)
            })
        }),
{
    let objects = with_columns(listed(tables), columns);
    law_metadata_is_in_order(tables, columns);
    law_schemas_group_their_objects(objects);
    law_metadata_shows_its_schemas(objects, "schemas"@);
    let schemas = schemas_tree(grouped(objects));
    if 0 <= i < j < schemas.len() {
        assert(shows_schema(schemas[i], grouped(objects)[i]));
        assert(shows_schema(schemas[j], grouped(objects)[j]));
    }
}

/// Where the objects of all groups hold an object, some group holds it at some place.
proof fn lemma_object_in_its_group(groups: Seq<SchemaView>, k: int) -> (at: (int, int))
    requires
        0 <= k < ungrouped(groups).len(),
    ensures
        0 <= at.0 < groups.len(),
        0 <= at.1 < groups[at.0].objects.len(),
        groups[at.0].objects[at.1] == ungrouped(groups)[k],
    decreases groups.len(),
{
    let front = groups.drop_last();
    let n = ungrouped(front).len() as int;
    if k < n {
        lemma_object_in_its_group(front, k)
    } else {
        (groups.len() - 1, k - n)
    }
}

/// A column that was listed for an object stands among the object's.
proof fn lemma_column_of_its_object(
    schema: Seq<char>,
    name: Seq<char>,
    columns: Seq<ColumnRow>,
    c: int,
) -> (at: int)
    requires
        0 <= c < columns.len(),
        columns[c].schema@ == schema,
        columns[c].table@ == name,
    ensures
        0 <= at < columns_of(schema, name, columns).len(),
        columns_of(schema, name, columns)[at] == column_tree(columns[c]),
    decreases columns.len(),
{
    let front = columns.drop_last();
    if c < front.len() {
        assert(front[c] == columns[c]);
        lemma_column_of_its_object(schema, name, front, c)
    } else {
        columns_of(schema, name, front).len() as int
    }
}

/// Where the metadata shows an object: the schema's place, and the object's place in it.
pub open spec fn shown_at(tree: JsonView, i: int, j: int) -> Option<JsonView> {
    match field(tree, "schemas"@) {
        Some(JsonView::Array(schemas)) => if 0 <= i < schemas.len() {
            match field(schemas[i], "objects"@) {
                Some(JsonView::Array(objects)) => if 0 <= j < objects.len() {
                    Some(objects[j])
                } else {
                    None
                },
                _ => None,
            }
        } else {
            None
        },
        _ => None,
    }
}

/// Each object that was listed is shown in the schema of its name, with the kind that the last row
/// about it says.
pub proof fn law_listed_objects_are_shown(
    tables: Seq<TableRow>,
    columns: Seq<ColumnRow>,
    k: int,
) -> (at: (int, int))
    requires
        0 <= k < tables.len(),
        last_about(tables, tables[k].schema@, tables[k].name@, k),
    ensures
        ({
            let tree = catalog_tree(with_columns(listed(tables), columns));
            let row = tables[k];
            &&& field(tree, "schemas"@) matches Some(JsonView::Array(schemas)) && 0 <= at.0
                < schemas.len() && field(schemas[at.0], "name"@) == Some(
                JsonView::Str(row.schema@),
            )
            &&& shown_at(tree, at.0, at.1) matches Some(object) && {
                &&& field(object, "schema"@) == Some(JsonView::Str(row.schema@))
                &&& field(object, "name"@) == Some(JsonView::Str(row.name@))
                &&& lowered(row.table_type@) == "view"@ ==> field(object, "kind"@) == Some(
                    JsonView::Str("view"@),
                )
                &&& lowered(row.table_type@) != "view"@ ==> field(object, "kind"@) == Some(
                    JsonView::Str("table"@),
                )
                &&& field(object, "columns"@) == Some(
                    JsonView::Array(columns_of(row.schema@, row.name@, columns)),
                )
            }
        }),
{
    let row = tables[k];
    let bare = listed_object(row);
    let objects = with_columns(listed(tables), columns);
    law_every_listed_object_is_there(tables, row.schema@, row.name@, k);
    law_views_are_told_from_tables(row.table_type@);
    law_columns_go_to_their_object(listed(tables), columns);
    law_metadata_is_in_order(tables, columns);
    law_schemas_group_their_objects(objects);
    law_metadata_shows_its_schemas(objects, "schemas"@);
    let m = listed(tables).index_of(bare);
    assert(bare.columns =~= Seq::empty());
    assert(listed(tables)[m] == bare);
    let groups = grouped(objects);
    let at = lemma_object_in_its_group(groups, m);
    let schemas = schemas_tree(groups);
    assert(shows_schema(schemas[at.0], groups[at.0]));
    assert(sound_group(groups[at.0]));
    let shown = field(schemas[at.0], "objects"@)->Some_0->Array_0;
    assert(shows_object(shown[at.1], objects[m]));
    assert(objects[m].columns =~= columns_of(row.schema@, row.name@, columns));
    at
}

/// Each column that was listed for a listed object is shown among that object's, with the name, the
/// data type, the place and the nullability of its own row.
pub proof fn law_listed_columns_are_shown(
    tables: Seq<TableRow>,
    columns: Seq<ColumnRow>,
    k: int,
    c: int,
) -> (at: (int, int, int))
    requires
        0 <= k < tables.len(),
        last_about(tables, tables[k].schema@, tables[k].name@, k),
        0 <= c < columns.len(),
        columns[c].schema@ == tables[k].schema@,
        columns[c].table@ == tables[k].name@,
    ensures
        ({
            let tree = catalog_tree(with_columns(listed(tables), columns));
            shown_at(tree, at.0, at.1) matches Some(object) && {
                &&& field(object, "schema"@) == Some(JsonView::Str(columns[c].schema@))
                &&& field(object, "name"@) == Some(JsonView::Str(columns[c].table@))
                &&& field(object, "columns"@) matches Some(JsonView::Array(shown)) && 0 <= at.2
                    < shown.len() && shows_column(shown[at.2], columns[c])
            }
        }),
{
    let row = tables[k];
    let place = law_listed_objects_are_shown(tables, columns, k);
    let p = lemma_column_of_its_object(row.schema@, row.name@, columns, c);
    law_columns_show_what_their_row_says(columns[c], columns[c]);
    (place.0, place.1, p)
}

/// The columns of an object are shown in the order in which they were listed, and no column is shown
/// that was not listed for it.
pub proof fn law_columns_stand_as_they_were_listed(
    schema: Seq<char>,
    name: Seq<char>,
    columns: Seq<ColumnRow>,
    p: int,
    q: int,
) -> (rows: (int, int))
    requires
        0 <= p < q < columns_of(schema, name, columns).len(),
    ensures
        0 <= rows.0 < rows.1 < columns.len(),
        columns[rows.0].schema@ == schema && columns[rows.0].table@ == name,
        columns[rows.1].schema@ == schema && columns[rows.1].table@ == name,
        shows_column(columns_of(schema, name, columns)[p], columns[rows.0]),
        shows_column(columns_of(schema, name, columns)[q], columns[rows.1]),
    decreases columns.len(),
{
    let front = columns.drop_last();
    let earlier = columns_of(schema, name, front);
    if q < earlier.len() {
        let rows = law_columns_stand_as_they_were_listed(schema, name, front, p, q);
        assert(front[rows.0] == columns[rows.0] && front[rows.1] == columns[rows.1]);
        rows
    } else {
        let first = lemma_row_of_its_column(schema, name, front, p);
        assert(front[first] == columns[first]);
        law_columns_show_what_their_row_says(columns.last(), columns.last());
        (first, columns.len() - 1)
    }
}

proof fn lemma_row_of_its_column(
    schema: Seq<char>,
    name: Seq<char>,
    columns: Seq<ColumnRow>,
    p: int,
) -> (row: int)
    requires
        0 <= p < columns_of(schema, name, columns).len(),
    ensures
        0 <= row < columns.len(),
        columns[row].schema@ == schema && columns[row].table@ == name,
        shows_column(columns_of(schema, name, columns)[p], columns[row]),
    decreases columns.len(),
{
    let front = columns.drop_last();
    if p < columns_of(schema, name, front).len() {
        let row = lemma_row_of_its_column(schema, name, front, p);
        assert(front[row] == columns[row]);
        row
    } else {
        law_columns_show_what_their_row_says(columns.last(), columns.last());
        columns.len() - 1
    }
}

/// No object is shown that was not listed: each shown object has the schema and the name of a row of
/// the list, and the columns that were listed for it.
pub proof fn law_no_other_objects_are_shown(
    tables: Seq<TableRow>,
    columns: Seq<ColumnRow>,
    i: int,
    j: int,
) -> (k: int)
    requires
        shown_at(catalog_tree(with_columns(listed(tables), columns)), i, j) is Some,
    ensures
        ({
            let tree = catalog_tree(with_columns(listed(tables), columns));
            &&& 0 <= k < tables.len()
            &&& last_about(tables, tables[k].schema@, tables[k].name@, k)
            &&& shown_at(tree, i, j) matches Some(object) && {
                &&& field(object, "schema"@) == Some(JsonView::Str(tables[k].schema@))
                &&& field(object, "name"@) == Some(JsonView::Str(tables[k].name@))
                &&& field(object, "columns"@) == Some(
                    JsonView::Array(columns_of(tables[k].schema@, tables[k].name@, columns)),
                )
            }
        }),
{
    let objects = with_columns(listed(tables), columns);
    let groups = grouped(objects);
    law_metadata_is_in_order(tables, columns);
    law_schemas_group_their_objects(objects);
    law_columns_go_to_their_object(listed(tables), columns);
    law_metadata_shows_its_schemas(objects, "schemas"@);
    let schemas = schemas_tree(groups);
    assert(shows_schema(schemas[i], groups[i]));
    let shown = field(schemas[i], "objects"@)->Some_0->Array_0;
    assert(shows_object(shown[j], groups[i].objects[j]));
    lemma_groups_hold_objects(groups, i, j);
    let m = objects.index_of(groups[i].objects[j]);
    let bare = listed(tables)[m];
    assert(listed(tables).contains(bare));
    law_only_listed_objects_are_there(tables, bare);
    let k = choose|k: int|
        last_about(tables, bare.schema, bare.name, k) && bare == listed_object(#[trigger] tables[k]);
    assert(bare.columns =~= Seq::empty());
    assert(objects[m].columns =~= columns_of(bare.schema, bare.name, columns));
    k
}

}
