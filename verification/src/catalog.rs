//! Metadata: the tables, views and columns of a database, grouped by schema.
use crate::abi::{error, error_tree, joined, ok, ok_tree, IrodoriConnectorBuffer};
use crate::json::{items_view, no_fields, Fields, Json, JsonView};
use crate::text::{
    before, lemma_before_is_strict, lemma_before_is_total, lemma_before_is_transitive, lowered,
    place, same, same_ignoring_case, Place,
};
use vstd::prelude::*;
use vstd::string::*;

verus! {

/// Asks for every table and view that is not the system's own.
pub const TABLES_SQL: &'static str = "select table_schema, table_name, table_type from information_schema.tables where table_schema not in ('information_schema', 'pg_catalog') order by table_schema, table_name";

/// Asks for their columns.
pub const COLUMNS_SQL: &'static str = "select table_schema, table_name, column_name, data_type, is_nullable, ordinal_position from information_schema.columns where table_schema not in ('information_schema', 'pg_catalog') order by table_schema, table_name, ordinal_position";

/// A table or view, with the columns that are known of it.
#[derive(Debug)]
pub struct ObjectMeta {
    pub schema: String,
    pub name: String,
    pub kind: String,
    pub columns: Vec<Json>,
}

/// What an `ObjectMeta` says.
pub struct ObjectView {
    pub schema: Seq<char>,
    pub name: Seq<char>,
    pub kind: Seq<char>,
    pub columns: Seq<JsonView>,
}

impl View for ObjectMeta {
    type V = ObjectView;

    open spec fn view(&self) -> ObjectView {
        ObjectView {
            schema: self.schema@,
            name: self.name@,
            kind: self.kind@,
            columns: items_view(self.columns@),
        }
    }
}

/// A schema with its objects.
pub struct SchemaView {
    pub name: Seq<char>,
    pub objects: Seq<ObjectView>,
}

/// A row of the list of tables.
#[derive(Debug)]
pub struct TableRow {
    pub schema: String,
    pub name: String,
    pub table_type: String,
}

/// A row of the list of columns.
#[derive(Debug)]
pub struct ColumnRow {
    pub schema: String,
    pub table: String,
    pub name: String,
    pub data_type: String,
    pub nullable: String,
    pub ordinal: i32,
}

/// `view` for a view, `table` for everything else.
pub open spec fn kind_of(table_type: Seq<char>) -> Seq<char> {
    if lowered(table_type) == lowered("VIEW"@) {
        "view"@
    } else {
        "table"@
    }
}

/// The object that a row of the list of tables speaks of.
pub open spec fn listed_object(row: TableRow) -> ObjectView {
    ObjectView {
        schema: row.schema@,
        name: row.name@,
        kind: kind_of(row.table_type@),
        columns: Seq::empty(),
    }
}

/// A column in JSON.
pub open spec fn column_tree(row: ColumnRow) -> JsonView {
    JsonView::Object(
        no_fields().insert("name"@, JsonView::Str(row.name@)).insert(
            "dataType"@,
            JsonView::Str(row.data_type@),
        ).insert("nullable"@, JsonView::Bool(lowered(row.nullable@) == lowered("YES"@))).insert(
            "ordinal"@,
            JsonView::Int(row.ordinal as int),
        ),
    )
}

/// An object in JSON.
pub open spec fn object_tree(object: ObjectView) -> JsonView {
    JsonView::Object(
        no_fields().insert("schema"@, JsonView::Str(object.schema)).insert(
            "name"@,
            JsonView::Str(object.name),
        ).insert("kind"@, JsonView::Str(object.kind)).insert(
            "columns"@,
            JsonView::Array(object.columns),
        ),
    )
}

/// Objects in JSON.
pub open spec fn objects_tree(objects: Seq<ObjectView>) -> Seq<JsonView> {
    objects.map_values(|object: ObjectView| object_tree(object))
}

/// A schema in JSON.
pub open spec fn schema_tree(schema: SchemaView) -> JsonView {
    JsonView::Object(
        no_fields().insert("name"@, JsonView::Str(schema.name)).insert(
            "objects"@,
            JsonView::Array(objects_tree(schema.objects)),
        ),
    )
}

/// Schemas in JSON.
pub open spec fn schemas_tree(schemas: Seq<SchemaView>) -> Seq<JsonView> {
    schemas.map_values(|schema: SchemaView| schema_tree(schema))
}

/// The metadata in JSON.
pub open spec fn catalog_tree(objects: Seq<ObjectView>) -> JsonView {
    JsonView::Object(
        no_fields().insert("schemas"@, JsonView::Array(schemas_tree(grouped(objects)))),
    )
}

/// The order of objects: by schema, and within one by name.
pub open spec fn stands_before(a: ObjectView, b: ObjectView) -> bool {
    before(a.schema, b.schema) || (a.schema == b.schema && before(a.name, b.name))
}

/// Both rows speak of one object.
pub open spec fn same_object(a: ObjectView, b: ObjectView) -> bool {
    a.schema == b.schema && a.name == b.name
}

/// In order, and no object twice.
pub open spec fn in_order(objects: Seq<ObjectView>) -> bool {
    forall|i: int, j: int|
        0 <= i < j < objects.len() ==> stands_before(#[trigger] objects[i], #[trigger] objects[j])
}

/// `object` in its place among `objects`, or in place of what stands there under its name.
pub open spec fn placed(objects: Seq<ObjectView>, object: ObjectView) -> Seq<ObjectView>
    decreases objects.len(),
{
    if objects.len() == 0 || stands_before(objects.last(), object) {
        objects.push(object)
    } else if same_object(objects.last(), object) {
        objects.drop_last().push(object)
    } else {
        placed(objects.drop_last(), object).push(objects.last())
    }
}

/// The object that a row of the list of columns belongs to has one column more; the others are as
/// they were.
pub open spec fn with_column(objects: Seq<ObjectView>, row: ColumnRow) -> Seq<ObjectView> {
    objects.map_values(
        |object: ObjectView|
            if object.schema == row.schema@ && object.name == row.table@ {
                ObjectView { columns: object.columns.push(column_tree(row)), ..object }
            } else {
                object
            },
    )
}

/// Neighbours of one schema together.
pub open spec fn grouped(objects: Seq<ObjectView>) -> Seq<SchemaView>
    decreases objects.len(),
{
    if objects.len() == 0 {
        Seq::empty()
    } else {
        joined_by(grouped(objects.drop_last()), objects.last())
    }
}

/// One object more: in the last group where that is its schema, else in a group of its own.
pub open spec fn joined_by(groups: Seq<SchemaView>, object: ObjectView) -> Seq<SchemaView> {
    if groups.len() > 0 && groups.last().name == object.schema {
        groups.drop_last().push(
            SchemaView {
                name: object.schema,
                objects: groups.last().objects.push(object),
            },
        )
    } else {
        groups.push(SchemaView { name: object.schema, objects: seq![object] })
    }
}

/// What the objects say.
pub open spec fn object_views(objects: Seq<ObjectMeta>) -> Seq<ObjectView> {
    objects.map_values(|object: ObjectMeta| object@)
}

/// Where an object stands with regard to a schema and a name.
fn object_place(object: &ObjectMeta, schema: &str, name: &str) -> (p: Place)
    ensures
        p == Place::Same <==> object@.schema == schema@ && object@.name == name@,
        p == Place::Before <==> before(object@.schema, schema@) || (object@.schema == schema@
            && before(object@.name, name@)),
{
    match place(object.schema.as_str(), schema) {
        Place::Before => Place::Before,
        Place::After => Place::After,
        Place::Same => place(object.name.as_str(), name),
    }
}

/// The tables, views and columns found so far, in the order of schemas and names.
#[derive(Debug)]
pub struct Catalog {
    objects: Vec<ObjectMeta>,
}

impl View for Catalog {
    type V = Seq<ObjectView>;

    closed spec fn view(&self) -> Seq<ObjectView> {
        object_views(self.objects@)
    }
}

/// Every object from `k` on stands behind `object`.
spec fn splits_at(objects: Seq<ObjectView>, object: ObjectView, k: int) -> bool {
    forall|i: int|
        k <= i < objects.len() ==> !stands_before(#[trigger] objects[i], object) && !same_object(
            objects[i],
            object,
        )
}

/// How `placed` splits the objects: those behind the place stay behind.
proof fn lemma_placed_splits(objects: Seq<ObjectView>, object: ObjectView, k: int)
    requires
        0 <= k <= objects.len(),
        splits_at(objects, object, k),
    ensures
        placed(objects, object) == placed(objects.take(k), object) + objects.skip(k),
    decreases objects.len() - k,
{
    if k < objects.len() {
        let front = objects.drop_last();
        assert forall|i: int| k <= i < front.len() implies !stands_before(
            #[trigger] front[i],
            object,
        ) && !same_object(front[i], object) by {
            assert(front[i] == objects[i]);
        }
        lemma_placed_splits(front, object, k);
        assert(front.take(k) =~= objects.take(k));
        assert(placed(objects.take(k), object) + objects.skip(k) =~= (placed(
            objects.take(k),
            object,
        ) + front.skip(k)).push(objects.last()));
    } else {
        assert(objects.take(k) =~= objects);
        assert(placed(objects, object) + objects.skip(k) =~= placed(objects, object));
    }
}

impl Catalog {
    #[verifier::type_invariant]
    spec fn well_formed(&self) -> bool {
        in_order(self@)
    }

    /// Nothing found yet.
    pub fn new() -> (catalog: Self)
        ensures
            catalog@ == Seq::<ObjectView>::empty(),
    {
        let catalog = Catalog { objects: Vec::new() };
        assert(catalog@ =~= Seq::<ObjectView>::empty());
        catalog
    }

    /// Where an object belongs: behind the first `k` objects, or in place of the last of them.
    fn slot(&self, meta: &ObjectMeta) -> (slot: (usize, bool))
        ensures
            slot.0 <= self@.len(),
            splits_at(self@, meta@, slot.0 as int),
            slot.1 ==> slot.0 > 0 && same_object(self@[slot.0 - 1], meta@),
            !slot.1 ==> slot.0 == 0 || stands_before(self@[slot.0 - 1], meta@),
    {
        let mut k: usize = self.objects.len();
        while k > 0
            invariant
                k <= self.objects@.len(),
                splits_at(self@, meta@, k as int),
            decreases k,
        {
            match object_place(&self.objects[k - 1], meta.schema.as_str(), meta.name.as_str()) {
                Place::Before => {
                    return (k, false);
                },
                Place::Same => {
                    return (k, true);
                },
                Place::After => {
                    k = k - 1;
                },
            }
        }
        (k, false)
    }

    /// Takes in a row of the list of tables.
    pub fn add_table(&mut self, row: TableRow)
        ensures
            final(self)@ == placed(old(self)@, listed_object(row)),
    {
        proof {
            use_type_invariant(&*self);
        }
        let kind = if same_ignoring_case(row.table_type.as_str(), "VIEW") {
            "view"
        } else {
            "table"
        };
        let ghost object = listed_object(row);
        let ghost views = self@;
        let meta = ObjectMeta {
            schema: row.schema,
            name: row.name,
            kind: kind.to_owned(),
            columns: Vec::new(),
        };
        let (k, replaces) = self.slot(&meta);
        proof {
            assert(meta@ == object);
            lemma_placed_splits(views, object, k as int);
            if replaces {
                assert(same_object(views.take(k as int).last(), object));
                if before(object.schema, object.schema) {
                    lemma_before_is_strict(object.schema, object.schema);
                }
                if before(object.name, object.name) {
                    lemma_before_is_strict(object.name, object.name);
                }
            }
            lemma_placed_keeps_order(views, object);
        }
        let mut objects: Vec<ObjectMeta> = Vec::new();
        std::mem::swap(&mut objects, &mut self.objects);
        if replaces {
            objects.set(k - 1, meta);
        } else {
            objects.insert(k, meta);
        }
        assert(object_views(objects@) =~= placed(views, object));
        self.objects = objects;
    }

    /// Where the object of this schema and name stands.
    fn position(&self, schema: &str, name: &str) -> (found: Option<usize>)
        ensures
            match found {
                Some(i) => i < self@.len() && self@[i as int].schema == schema@
                    && self@[i as int].name == name@,
                None => forall|i: int|
                    0 <= i < self@.len() ==> !((#[trigger] self@[i]).schema == schema@
                        && self@[i].name == name@),
            },
    {
        let mut i: usize = 0;
        while i < self.objects.len()
            invariant
                i <= self.objects@.len(),
                forall|j: int|
                    0 <= j < i ==> !((#[trigger] self@[j]).schema == schema@ && self@[j].name
                        == name@),
            decreases self.objects@.len() - i,
        {
            if same(self.objects[i].schema.as_str(), schema) && same(
                self.objects[i].name.as_str(),
                name,
            ) {
                return Some(i);
            }
            i = i + 1;
        }
        None
    }

    /// Takes in a row of the list of columns. A column of an object that was not listed is left
    /// out.
    pub fn add_column(&mut self, row: ColumnRow)
        ensures
            final(self)@ == with_column(old(self)@, row),
    {
        proof {
            use_type_invariant(&*self);
        }
        let ghost views = self@;
        match self.position(row.schema.as_str(), row.table.as_str()) {
            Some(i) => {
                let column = Fields::new().with("name", Json::Str(row.name)).with(
                    "dataType",
                    Json::Str(row.data_type),
                ).with(
                    "nullable",
                    Json::Bool(same_ignoring_case(row.nullable.as_str(), "YES")),
                ).with("ordinal", Json::Signed(row.ordinal as i64));
                let column = Json::Object(column);
                assert(column@ == column_tree(row));
                let mut objects: Vec<ObjectMeta> = Vec::new();
                std::mem::swap(&mut objects, &mut self.objects);
                let ghost all = objects@;
                let mut meta = objects.remove(i);
                let ghost columns = meta.columns@;
                meta.columns.push(column);
                assert(meta.columns@.drop_last() =~= columns);
                objects.insert(i, meta);
                proof {
                    assert(meta@.columns == items_view(columns).push(column_tree(row)));
                    assert forall|j: int| 0 <= j < views.len() implies #[trigger] object_views(
                        objects@,
                    )[j] == with_column(views, row)[j] by {
                        if j != i {
                            lemma_in_order_is_distinct(views, i as int, j);
                        }
                    }
                    assert(object_views(objects@) =~= with_column(views, row));
                    lemma_with_column_keeps_order(views, row);
                }
                self.objects = objects;
            },
            None => {
                assert(with_column(views, row) =~= views);
            },
        }
    }

    /// The metadata in JSON, schema by schema.
    pub fn into_json(self) -> (json: Json)
        ensures
            json@ == catalog_tree(self@),
    {
        let ghost views = self@;
        let ghost all = self.objects@;
        let mut schemas: Vec<Json> = Vec::new();
        let mut schema: Option<String> = None;
        let mut members: Vec<Json> = Vec::new();
        let ghost mut closed = Seq::<SchemaView>::empty();
        let ghost mut inside = Seq::<ObjectView>::empty();
        for object in iter: self.objects
            invariant
                iter.seq() == all,
                views == object_views(all),
                items_view(schemas@) == schemas_tree(closed),
                items_view(members@) == objects_tree(inside),
                match schema {
                    None => iter.index() == 0 && closed.len() == 0 && inside.len() == 0,
                    Some(name) => grouped(views.take(iter.index() as int)) == closed.push(
                        SchemaView { name: name@, objects: inside },
                    ),
                },
        {
            let ghost i = iter.index() as int;
            let ghost view = views[i];
            proof {
                assert(view == object@);
                assert(views.take(i + 1).drop_last() =~= views.take(i));
                assert(views.take(i + 1).last() == view);
                if schema is None {
                    assert(grouped(views.take(0)) =~= Seq::<SchemaView>::empty());
                }
            }
            let goes_on = match &schema {
                Some(name) => same(name.as_str(), object.schema.as_str()),
                None => false,
            };
            if !goes_on {
                let mut done: Vec<Json> = Vec::new();
                std::mem::swap(&mut done, &mut members);
                match schema {
                    Some(name) => {
                        let ghost group = SchemaView { name: name@, objects: inside };
                        close_schema(&mut schemas, name, done, Ghost(closed), Ghost(inside));
                        proof {
                            closed = closed.push(group);
                            assert(closed.last() == group);
                        }
                    },
                    None => {},
                }
                proof {
                    inside = Seq::empty();
                    assert(objects_tree(inside) =~= Seq::empty());
                    assert(items_view(members@) =~= Seq::empty());
                }
                schema = Some(object.schema.clone());
            }
            let ghost earlier = members@;
            members.push(object_json(object));
            proof {
                assert(members@.drop_last() =~= earlier);
                assert(objects_tree(inside.push(view)) =~= objects_tree(inside).push(
                    object_tree(view),
                ));
                let groups = grouped(views.take(i));
                inside = inside.push(view);
                assert(joined_by(groups, view) =~= closed.push(
                    SchemaView { name: view.schema, objects: inside },
                ));
            }
        }
        assert(views.take(views.len() as int) =~= views);
        match schema {
            Some(name) => {
                close_schema(&mut schemas, name, members, Ghost(closed), Ghost(inside));
            },
            None => {
                assert(views =~= Seq::empty());
                assert(schemas_tree(grouped(views)) =~= Seq::empty());
            },
        }
        let json = Json::Array(schemas);
        assert(json@ == JsonView::Array(schemas_tree(grouped(views))));
        Json::Object(Fields::new().with("schemas", json))
    }
}

/// The reply with the metadata.
pub open spec fn metadata_tree(connection_id: Seq<char>, objects: Seq<ObjectView>) -> JsonView {
    ok_tree(
        no_fields().insert("connectionId"@, JsonView::Str(connection_id)).insert(
            "metadata"@,
            catalog_tree(objects),
        ),
    )
}

/// The reply where the driver could not list the tables.
pub open spec fn tables_failed_tree(words: Seq<char>) -> JsonView {
    error_tree("connector.metadataFailed"@, "metadata objects failed: "@ + words)
}

/// The reply where the driver could not list the columns.
pub open spec fn columns_failed_tree(words: Seq<char>) -> JsonView {
    error_tree("connector.metadataFailed"@, "metadata columns failed: "@ + words)
}

/// The list of tables, which `sql` asks for, is to be read row by row.
#[derive(Debug)]
pub struct TableListing {
    pub connection_id: String,
    pub sql: &'static str,
    pub catalog: Catalog,
}

/// The list of columns, which `sql` asks for, is to be read row by row.
#[derive(Debug)]
pub struct ColumnListing {
    pub connection_id: String,
    pub sql: &'static str,
    pub catalog: Catalog,
}

/// Begins to collect the metadata of a connection.
pub fn load_metadata(connection_id: String) -> (listing: TableListing)
    ensures
        listing.connection_id == connection_id,
        listing.sql@ == TABLES_SQL@,
        listing.catalog@ == Seq::<ObjectView>::empty(),
{
    TableListing { connection_id, sql: TABLES_SQL, catalog: Catalog::new() }
}

impl TableListing {
    /// The next row of the list of tables.
    pub fn table(self, row: TableRow) -> (listing: TableListing)
        ensures
            listing.connection_id == self.connection_id,
            listing.sql == self.sql,
            listing.catalog@ == placed(self.catalog@, listed_object(row)),
    {
        let mut catalog = self.catalog;
        catalog.add_table(row);
        TableListing { connection_id: self.connection_id, sql: self.sql, catalog }
    }

    /// The list of tables is read.
    pub fn finished(self) -> (listing: ColumnListing)
        ensures
            listing.connection_id == self.connection_id,
            listing.sql@ == COLUMNS_SQL@,
            listing.catalog == self.catalog,
    {
        ColumnListing {
            connection_id: self.connection_id,
            sql: COLUMNS_SQL,
            catalog: self.catalog,
        }
    }

    /// The driver could not run the statement or read a row.
    pub fn failed(self, words: &str) -> (reply: IrodoriConnectorBuffer)
        ensures
            reply.carries(tables_failed_tree(words@)),
    {
        error("connector.metadataFailed", joined("metadata objects failed: ", words))
    }
}

impl ColumnListing {
    /// The next row of the list of columns.
    pub fn column(self, row: ColumnRow) -> (listing: ColumnListing)
        ensures
            listing.connection_id == self.connection_id,
            listing.sql == self.sql,
            listing.catalog@ == with_column(self.catalog@, row),
    {
        let mut catalog = self.catalog;
        catalog.add_column(row);
        ColumnListing { connection_id: self.connection_id, sql: self.sql, catalog }
    }

    /// The list of columns is read.
    pub fn finished(self) -> (reply: IrodoriConnectorBuffer)
        ensures
            reply.carries(metadata_tree(self.connection_id@, self.catalog@)),
    {
        ok(
            Fields::new().with("connectionId", Json::Str(self.connection_id)).with(
                "metadata",
                self.catalog.into_json(),
            ),
        )
    }

    /// The driver could not run the statement or read a row.
    pub fn failed(self, words: &str) -> (reply: IrodoriConnectorBuffer)
        ensures
            reply.carries(columns_failed_tree(words@)),
    {
        error("connector.metadataFailed", joined("metadata columns failed: ", words))
    }
}

/// An object in JSON.
fn object_json(object: ObjectMeta) -> (json: Json)
    ensures
        json@ == object_tree(object@),
{
    Json::Object(
        Fields::new().with("schema", Json::Str(object.schema)).with(
            "name",
            Json::Str(object.name),
        ).with("kind", Json::Str(object.kind)).with("columns", Json::Array(object.columns)),
    )
}

/// Puts a schema with its objects behind the schemas before it.
fn close_schema(
    schemas: &mut Vec<Json>,
    name: String,
    members: Vec<Json>,
    Ghost(closed): Ghost<Seq<SchemaView>>,
    Ghost(inside): Ghost<Seq<ObjectView>>,
)
    requires
        items_view(old(schemas)@) == schemas_tree(closed),
        items_view(members@) == objects_tree(inside),
    ensures
        items_view(final(schemas)@) == schemas_tree(
            closed.push(SchemaView { name: name@, objects: inside }),
        ),
{
    let ghost group = SchemaView { name: name@, objects: inside };
    let ghost earlier = schemas@;
    let item = Json::Object(
        Fields::new().with("name", Json::Str(name)).with("objects", Json::Array(members)),
    );
    assert(item@ == schema_tree(group));
    schemas.push(item);
    proof {
        assert(schemas@.drop_last() =~= earlier);
        assert(schemas_tree(closed.push(group)) =~= schemas_tree(closed).push(schema_tree(group)));
    }
}

/// Two objects at different places are different.
pub proof fn lemma_in_order_is_distinct(objects: Seq<ObjectView>, i: int, j: int)
    requires
        in_order(objects),
        0 <= i < objects.len(),
        0 <= j < objects.len(),
        i != j,
    ensures
        !same_object(objects[i], objects[j]),
{
    let a = if i < j { objects[i] } else { objects[j] };
    let b = if i < j { objects[j] } else { objects[i] };
    assert(stands_before(a, b));
    if before(a.schema, b.schema) {
        lemma_before_is_strict(a.schema, b.schema);
    } else {
        lemma_before_is_strict(a.name, b.name);
    }
}

/// The order of objects is transitive.
proof fn lemma_stands_before_is_transitive(a: ObjectView, b: ObjectView, c: ObjectView)
    requires
        stands_before(a, b),
        stands_before(b, c),
    ensures
        stands_before(a, c),
{
    if before(a.schema, b.schema) && before(b.schema, c.schema) {
        lemma_before_is_transitive(a.schema, b.schema, c.schema);
    } else if a.schema == b.schema && b.schema == c.schema {
        lemma_before_is_transitive(a.name, b.name, c.name);
    }
}

/// Of two different objects one stands before the other.
proof fn lemma_stands_before_is_total(a: ObjectView, b: ObjectView)
    requires
        !same_object(a, b),
    ensures
        stands_before(a, b) || stands_before(b, a),
{
    if a.schema != b.schema {
        lemma_before_is_total(a.schema, b.schema);
    } else {
        lemma_before_is_total(a.name, b.name);
    }
}

/// All but the last are in order too.
pub proof fn lemma_order_of_front(objects: Seq<ObjectView>)
    requires
        in_order(objects),
        objects.len() > 0,
    ensures
        in_order(objects.drop_last()),
{
    let front = objects.drop_last();
    assert forall|i: int, j: int| 0 <= i < j < front.len() implies stands_before(
        #[trigger] front[i],
        #[trigger] front[j],
    ) by {
        assert(stands_before(objects[i], objects[j]));
    }
}

/// An object takes its place without disturbing the order.
pub proof fn lemma_placed_keeps_order(objects: Seq<ObjectView>, object: ObjectView)
    requires
        in_order(objects),
    ensures
        in_order(placed(objects, object)),
        forall|i: int|
            0 <= i < placed(objects, object).len() ==> (#[trigger] placed(objects, object)[i])
                == object || objects.contains(placed(objects, object)[i]),
    decreases objects.len(),
{
    let result = placed(objects, object);
    if objects.len() == 0 {
    } else if stands_before(objects.last(), object) {
        assert forall|i: int, j: int| 0 <= i < j < result.len() implies stands_before(
            #[trigger] result[i],
            #[trigger] result[j],
        ) by {
            if j == objects.len() && i < objects.len() - 1 {
                assert(stands_before(objects[i], objects.last()));
                lemma_stands_before_is_transitive(objects[i], objects.last(), object);
            }
        }
    } else if same_object(objects.last(), object) {
        assert forall|i: int, j: int| 0 <= i < j < result.len() implies stands_before(
            #[trigger] result[i],
            #[trigger] result[j],
        ) by {
            assert(stands_before(objects[i], objects[j]));
        }
    } else {
        let front = objects.drop_last();
        lemma_order_of_front(objects);
        lemma_placed_keeps_order(front, object);
        lemma_stands_before_is_total(objects.last(), object);
        let inner = placed(front, object);
        assert forall|i: int, j: int| 0 <= i < j < result.len() implies stands_before(
            #[trigger] result[i],
            #[trigger] result[j],
        ) by {
            if j == inner.len() {
                if inner[i] != object {
                    let m = choose|m: int| 0 <= m < front.len() && front[m] == inner[i];
                    assert(stands_before(objects[m], objects.last()));
                }
            } else {
                assert(stands_before(inner[i], inner[j]));
            }
        }
        assert forall|i: int| 0 <= i < result.len() implies (#[trigger] result[i]) == object
            || objects.contains(result[i]) by {
            if i < inner.len() {
                if inner[i] != object {
                    let m = choose|m: int| 0 <= m < front.len() && front[m] == inner[i];
                    assert(objects[m] == result[i]);
                }
            } else {
                assert(objects[objects.len() - 1] == result[i]);
            }
        }
    }
}

/// A column more does not disturb the order.
pub proof fn lemma_with_column_keeps_order(objects: Seq<ObjectView>, row: ColumnRow)
    requires
        in_order(objects),
    ensures
        in_order(with_column(objects, row)),
{
    let result = with_column(objects, row);
    assert forall|i: int, j: int| 0 <= i < j < result.len() implies stands_before(
        #[trigger] result[i],
        #[trigger] result[j],
    ) by {
        assert(stands_before(objects[i], objects[j]));
    }
}

}
