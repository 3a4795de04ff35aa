//! What holds of the steps of a conversation: what each function makes of what it is given.
use crate::abi::{
    buffer_to_string, connection_id, connection_named, error, json_buffer, max_rows, ok,
    owned_buffer, profile_field, string_field, IrodoriConnectorBuffer,
};
use crate::catalog::{
    catalog_tree, load_metadata, Catalog, ColumnListing, ColumnRow, TableListing, TableRow,
};
use crate::catalog_laws::{listed, with_columns};
use crate::connect::{
    connect, should_seed_sample, state_poisoned, Counted, Filling, Opened, Opening, Registration,
    Seeding, Target,
};
use crate::documents::{CONFIG_JSON, MANIFEST_JSON};
use crate::driver::{
    answers, call_json, close, describe, dispatch, metadata, query, Call, Close, Metadata, Query,
};
use crate::json::{field, fits, json_parse, json_text, Fields, Json, JsonView};
use crate::laws::arrival_trees;
use crate::laws::replies::{
    law_a_failure_is_told, law_a_reply_is_read_as_what_it_carries, law_closed_replies,
    law_connected_replies, law_descriptions_show_their_documents, law_executed_replies,
    law_failures_are_told, law_metadata_replies, law_rows_replies, read_of, shows_documents,
    tells_failure, tells_health,
};
use crate::laws::requests::{
    honours, lacks, law_connecting_opens_what_is_named, law_connections_are_named_in_order,
    law_requests_come_to_their_method, law_row_limits_are_honoured,
    law_sample_data_goes_where_it_is_wanted,
    law_text_fields_count_where_they_are_not_blank, names, names_database, names_no_database,
    profile_lacks, profile_names,
};
use crate::laws::words::{
    digit_value, is_hex_digit, law_bytes_can_be_read_off_their_digits, law_no_other_statements_give_rows,
    law_statements_with_such_a_word_give_rows, opens_a_query,
};
use crate::query::{
    cell_to_json, cell_tree, gives_rows, hex_encode, is_query, run_query, Cell, Execution,
    Fetched, ResultSet, ResultView, Run, Selection,
};
use crate::sessions::Sessions;
use crate::text::{blank, lowered, trimmed};
use crate::{
    irodori_connector_call_json, irodori_connector_config_json, irodori_connector_engine_json,
    irodori_extension_abi_version, irodori_extension_manifest_json,
};
use vstd::prelude::*;
use vstd::utf8::encode_utf8;

verus! {

/// A connection is registered under the name that the request gives it, in the database that the
/// request names, and in memory only where it names none or `:memory:`.
pub proof fn law_connect(request: &Json, text: Seq<char>, opening: Opening)
    requires
        call_ensures(connect, (request,), opening),
    ensures
        names_database(request@, text) && trimmed(text) != ":memory:"@ ==> (
        opening.target matches Target::Path(path) && path@ == trimmed(text)),
        names_database(request@, text) && trimmed(text) == ":memory:"@ ==> opening.target
            is InMemory,
        names_no_database(request@) ==> opening.target is InMemory,
        names(request@, "connectionId"@, text) ==> opening.connection_id@ == trimmed(text),
        opening.connection_id@ == connection_named(Some(request@)),
        opening.version_sql@ == "select version()"@,
        field(request@, "seedSample"@) is None && field(request@, "profile"@) is None ==> (
        opening.seed <==> opening.connection_id@ == "duckdb-memory"@ || opening.connection_id@
            == "motherduck-memory"@),
{
    law_connecting_opens_what_is_named(request@, text);
    law_connections_are_named_in_order(request@, text);
    law_sample_data_goes_where_it_is_wanted(
        request@,
        JsonView::Null,
        opening.connection_id@,
        true,
    );
}

/// The sample data is wanted as `seedSample` says, the request's before the profile's, and else for
/// two connections by their exact names.
pub proof fn law_should_seed_sample(
    request: &Json,
    profile: JsonView,
    connection_id: &str,
    flag: bool,
    seed: bool,
)
    requires
        call_ensures(should_seed_sample, (request, connection_id), seed),
    ensures
        field(request@, "seedSample"@) == Some(JsonView::Bool(flag)) ==> seed == flag,
        field(request@, "seedSample"@) is None && field(request@, "profile"@) == Some(profile)
            && field(profile, "seedSample"@) == Some(JsonView::Bool(flag)) ==> seed == flag,
        field(request@, "seedSample"@) is None && field(request@, "profile"@) == Some(profile)
            && field(profile, "seedSample"@) is None ==> (seed <==> connection_id@
            == "duckdb-memory"@ || connection_id@ == "motherduck-memory"@),
        field(request@, "seedSample"@) is None && field(request@, "profile"@) is None ==> (seed
            <==> connection_id@ == "duckdb-memory"@ || connection_id@ == "motherduck-memory"@),
{
    law_sample_data_goes_where_it_is_wanted(request@, profile, connection_id@, flag);
}

/// An open database gets the sample data exactly where it is to; either way the connection keeps its
/// name, and its version is what the database told.
pub proof fn law_opened(opening: Opening, version: Option<String>, next: Opened)
    requires
        call_ensures(Opening::opened, (opening, version), next),
    ensures
        next is Seed <==> opening.seed,
        next matches Opened::Seed(seeding) ==> {
            &&& seeding.connection_id@ == opening.connection_id@
            &&& version matches Some(told) ==> seeding.server_version@ == told@
            &&& version is None ==> seeding.server_version@ == "unknown"@
            &&& seeding.schema_sql@
                == "create table if not exists customers (id integer, name varchar);"@
            &&& seeding.count_sql@ == "select count(*) from customers"@
        },
        next matches Opened::Register(registration) ==> {
            &&& registration.connection_id@ == opening.connection_id@
            &&& version matches Some(told) ==> registration.server_version@ == told@
            &&& version is None ==> registration.server_version@ == "unknown"@
        },
{
}

/// The sample table is filled exactly where it is empty or could not be counted.
pub proof fn law_counted(seeding: Seeding, count: Option<i64>, next: Counted)
    requires
        call_ensures(Seeding::counted, (seeding, count), next),
    ensures
        next is Fill <==> (count matches Some(n) ==> n == 0),
        next matches Counted::Fill(filling) ==> {
            &&& filling.connection_id@ == seeding.connection_id@
            &&& filling.server_version@ == seeding.server_version@
            &&& filling.data_sql@
                == "insert into customers values (1, 'Kawase Foods'), (2, 'Minato Labs');"@
        },
        next matches Counted::Register(registration) ==> {
            &&& registration.connection_id@ == seeding.connection_id@
            &&& registration.server_version@ == seeding.server_version@
        },
{
}

/// A filled sample table leaves the connection's name and version as they were.
pub proof fn law_filled(filling: Filling, registration: Registration)
    requires
        call_ensures(Filling::filled, (filling,), registration),
    ensures
        registration.connection_id@ == filling.connection_id@,
        registration.server_version@ == filling.server_version@,
{
}

/// A connection that is registered is the one under its name, every other name keeps what it had, and
/// the reply tells the name and the version.
pub proof fn law_register<C>(
    registration: Registration,
    sessions: &mut Sessions<C>,
    connection: C,
    other: Seq<char>,
    reply: IrodoriConnectorBuffer,
)
    requires
        call_ensures(Registration::register::<C>, (registration, sessions, connection), reply),
    ensures
        final(sessions)@.contains_key(registration.connection_id@),
        final(sessions)@[registration.connection_id@] == connection,
        other != registration.connection_id@ ==> {
            &&& final(sessions)@.contains_key(other) == old(sessions)@.contains_key(other)
            &&& final(sessions)@[other] == old(sessions)@[other]
        },
        read_of(reply) matches Some(read) && {
            &&& field(read, "ok"@) == Some(JsonView::Bool(true))
            &&& field(read, "engine"@) == Some(JsonView::Str("motherduck"@))
            &&& field(read, "connectionId"@) == Some(JsonView::Str(registration.connection_id@))
            &&& field(read, "serverVersion"@) == Some(JsonView::Str(registration.server_version@))
            &&& field(read, "driverLinked"@) == Some(JsonView::Bool(true))
        },
{
    law_connected_replies(
        reply,
        registration.connection_id@,
        registration.server_version@,
        "ok"@,
    );
}

/// A connection that is closed is not there any more, every other stays, and the reply tells whether
/// it was there.
pub proof fn law_close<C>(
    closing: Close,
    sessions: &mut Sessions<C>,
    other: Seq<char>,
    reply: IrodoriConnectorBuffer,
)
    requires
        call_ensures(Close::close::<C>, (closing, sessions), reply),
    ensures
        !final(sessions)@.contains_key(closing.connection_id@),
        other != closing.connection_id@ ==> {
            &&& final(sessions)@.contains_key(other) == old(sessions)@.contains_key(other)
            &&& old(sessions)@.contains_key(other) ==> final(sessions)@[other]
                == old(sessions)@[other]
        },
        read_of(reply) matches Some(read) && {
            &&& field(read, "ok"@) == Some(JsonView::Bool(true))
            &&& field(read, "connectionId"@) == Some(JsonView::Str(closing.connection_id@))
            &&& field(read, "closed"@) == Some(
                JsonView::Bool(old(sessions)@.contains_key(closing.connection_id@)),
            )
        },
{
    law_closed_replies(
        reply,
        closing.connection_id@,
        old(sessions)@.contains_key(closing.connection_id@),
        "ok"@,
    );
}

/// A name stands for the connection that was last put under it, until that is taken out.
pub proof fn law_sessions<C>(
    sessions: &mut Sessions<C>,
    name: String,
    connection: C,
    replaced: Option<C>,
    after: &Sessions<C>,
    again: &str,
    found: Option<&C>,
)
    requires
        call_ensures(Sessions::<C>::insert, (sessions, name, connection), replaced),
        after@ == final(sessions)@,
        again@ == name@,
        call_ensures(Sessions::<C>::get, (after, again), found),
    ensures
        found == Some(&connection),
        replaced is Some <==> old(sessions)@.contains_key(name@),
        replaced matches Some(before) ==> before == old(sessions)@[name@],
{
}

/// A name that was taken out stands for nothing, and what it stood for is handed out.
pub proof fn law_sessions_removed<C>(
    sessions: &mut Sessions<C>,
    name: &str,
    connection: Option<C>,
    after: &Sessions<C>,
    found: Option<&C>,
)
    requires
        call_ensures(Sessions::<C>::remove, (sessions, name), connection),
        after@ == final(sessions)@,
        call_ensures(Sessions::<C>::get, (after, name), found),
    ensures
        found is None,
        connection is Some <==> old(sessions)@.contains_key(name@),
        connection matches Some(before) ==> before == old(sessions)@[name@],
{
}

/// Before anything was put in, no name stands for a connection.
pub proof fn law_sessions_new<C>(sessions: Sessions<C>, name: &str, found: Option<&C>)
    requires
        call_ensures(Sessions::<C>::new, (), sessions),
        call_ensures(Sessions::<C>::get, (&sessions, name), found),
    ensures
        found is None,
{
}

/// What goes wrong while connecting is told with the driver's words.
pub proof fn law_connecting_fails(
    opening: Opening,
    seeding: Seeding,
    filling: Filling,
    words: &str,
    reply: IrodoriConnectorBuffer,
)
    ensures
        call_ensures(Opening::failed, (opening, words), reply) ==> tells_failure(
            reply,
            "connector.connectFailed"@,
            "connect failed: "@ + words@,
        ),
        call_ensures(Seeding::failed, (seeding, words), reply) ==> tells_failure(
            reply,
            "connector.seedFailed"@,
            "duckdb sample schema failed: "@ + words@,
        ),
        call_ensures(Filling::failed, (filling, words), reply) ==> tells_failure(
            reply,
            "connector.seedFailed"@,
            "duckdb sample data failed: "@ + words@,
        ),
        call_ensures(state_poisoned, (), reply) ==> tells_failure(
            reply,
            "connector.statePoisoned"@,
            "Connector connection state is poisoned."@,
        ),
{
    law_failures_are_told(reply, words@);
}

/// What goes wrong with a statement or with the metadata is told with the driver's words.
pub proof fn law_queries_and_metadata_fail(
    execution: Execution,
    selection: Selection,
    set: ResultSet,
    tables: TableListing,
    columns: ColumnListing,
    words: &str,
    reply: IrodoriConnectorBuffer,
)
    ensures
        call_ensures(Execution::failed, (execution, words), reply) || call_ensures(
            Selection::failed,
            (selection, words),
            reply,
        ) || call_ensures(ResultSet::failed, (set, words), reply) ==> tells_failure(
            reply,
            "connector.queryFailed"@,
            "query failed: "@ + words@,
        ),
        call_ensures(TableListing::failed, (tables, words), reply) ==> tells_failure(
            reply,
            "connector.metadataFailed"@,
            "metadata objects failed: "@ + words@,
        ),
        call_ensures(ColumnListing::failed, (columns, words), reply) ==> tells_failure(
            reply,
            "connector.metadataFailed"@,
            "metadata columns failed: "@ + words@,
        ),
{
    law_failures_are_told(reply, words@);
}

/// A query gets as many rows as `maxRows` says, where there is none as `limit` says, between 1 and
/// 100000; and 10000 where nothing says so.
pub proof fn law_max_rows(request: &Json, n: int, rows: usize)
    requires
        call_ensures(max_rows, (request,), rows),
    ensures
        field(request@, "maxRows"@) == Some(JsonView::Int(n)) ==> honours(rows as int, n),
        field(request@, "maxRows"@) is None && field(request@, "limit"@) == Some(JsonView::Int(n))
            ==> honours(rows as int, n),
        field(request@, "maxRows"@) is None && field(request@, "limit"@) is None ==> rows == 10_000,
        field(request@, "maxRows"@) matches Some(value) && !(value is Int) ==> rows == 10_000,
{
    law_row_limits_are_honoured(request@, n);
}

/// A request is about the connection that it names, without the white space around the name.
pub proof fn law_connection_id(request: &Json, text: Seq<char>, id: String)
    requires
        call_ensures(connection_id, (Some(request),), id),
    ensures
        names(request@, "connectionId"@, text) ==> id@ == trimmed(text),
        lacks(request@, "connectionId"@) && names(request@, "id"@, text) ==> id@ == trimmed(text),
        lacks(request@, "connectionId"@) && lacks(request@, "id"@) && profile_names(
            request@,
            "id"@,
            text,
        ) ==> id@ == trimmed(text),
        lacks(request@, "connectionId"@) && lacks(request@, "id"@) && profile_lacks(
            request@,
            "id"@,
        ) ==> id@ == "default"@,
{
    law_connections_are_named_in_order(request@, text);
}

/// A text field is found where it is not blank, and a field of the request before the profile's.
pub proof fn law_text_fields(request: &Json, name: &str, text: Option<&str>, words: Seq<char>)
    ensures
        call_ensures(string_field, (request, name), text) ==> {
            &&& names(request@, name@, words) ==> (text matches Some(found) && found@ == words)
            &&& lacks(request@, name@) ==> text is None
        },
        call_ensures(profile_field, (request, name), text) ==> {
            &&& names(request@, name@, words) ==> (text matches Some(found) && found@ == words)
            &&& lacks(request@, name@) && profile_names(request@, name@, words) ==> (
            text matches Some(found) && found@ == words)
            &&& lacks(request@, name@) && profile_lacks(request@, name@) ==> text is None
        },
{
    law_text_fields_count_where_they_are_not_blank(request@, name@, words);
}

/// A buffer holds the UTF-8 bytes of its text and nothing else, and reading it gives the text back.
pub proof fn law_buffers_give_back_their_text(
    value: String,
    buffer: IrodoriConnectorBuffer,
    result: Result<String, ()>,
)
    requires
        call_ensures(owned_buffer, (value,), buffer),
        call_ensures(buffer_to_string, (&buffer,), result),
    ensures
        buffer.ptr matches Some(memory) && memory@ == encode_utf8(value@) && memory@.len()
            == buffer.len,
        result matches Ok(text) && text@ == value@,
{
    let memory = buffer.ptr->Some_0;
    assert(memory@.take(buffer.len as int) =~= memory@);
}

/// Whoever reads the JSON in a buffer gets what was put in, where it has no float and is no deeper than
/// the parser goes.
pub proof fn law_json_buffers_are_read_back(value: Json, buffer: IrodoriConnectorBuffer)
    requires
        call_ensures(json_buffer, (value,), buffer),
    ensures
        buffer.text() == Some(json_text(value@)),
        fits(value@, 127, false) ==> read_of(buffer) == Some(value@),
{
    law_a_reply_is_read_as_what_it_carries(buffer, value@);
}

/// A success has its payload's fields, and says that it is one.
pub proof fn law_ok(payload: Fields, name: Seq<char>, reply: IrodoriConnectorBuffer)
    requires
        call_ensures(ok, (payload,), reply),
        fits(JsonView::Object(payload@.insert("ok"@, JsonView::Bool(true))), 127, false),
    ensures
        read_of(reply) matches Some(read) && {
            &&& field(read, "ok"@) == Some(JsonView::Bool(true))
            &&& name != "ok"@ ==> field(read, name) == field(JsonView::Object(payload@), name)
        },
{
}

/// A failure tells its code and its message.
pub proof fn law_error(code: &str, message: String, reply: IrodoriConnectorBuffer)
    requires
        call_ensures(error, (code, message), reply),
    ensures
        tells_failure(reply, code@, message@),
{
    law_a_failure_is_told(reply, code@, message@);
}

/// A description shows the documents that it was given beside the connector's health.
pub proof fn law_describe(manifest: Json, config: Json, reply: IrodoriConnectorBuffer)
    requires
        call_ensures(describe, (manifest, config), reply),
        fits(manifest@, 126, true),
        fits(config@, 126, true),
    ensures
        shows_documents(reply, manifest@, config@),
{
    law_descriptions_show_their_documents(reply, manifest@, config@);
}

/// A boolean cell is its truth value, an integer cell its integer, a text cell its text.
pub proof fn law_cell_to_json(
    truth: bool,
    tiny: i8,
    small: i16,
    medium: i32,
    big: i64,
    utiny: u8,
    usmall: u16,
    uint: u32,
    ubig: u64,
    text: String,
    json: Json,
)
    ensures
        call_ensures(cell_to_json, (Cell::Boolean(truth),), json) ==> json@ == JsonView::Bool(
            truth,
        ),
        call_ensures(cell_to_json, (Cell::TinyInt(tiny),), json) ==> json@ == JsonView::Int(
            tiny as int,
        ),
        call_ensures(cell_to_json, (Cell::SmallInt(small),), json) ==> json@ == JsonView::Int(
            small as int,
        ),
        call_ensures(cell_to_json, (Cell::Int(medium),), json) ==> json@ == JsonView::Int(
            medium as int,
        ),
        call_ensures(cell_to_json, (Cell::BigInt(big),), json) ==> json@ == JsonView::Int(
            big as int,
        ),
        call_ensures(cell_to_json, (Cell::UTinyInt(utiny),), json) ==> json@ == JsonView::Int(
            utiny as int,
        ),
        call_ensures(cell_to_json, (Cell::USmallInt(usmall),), json) ==> json@ == JsonView::Int(
            usmall as int,
        ),
        call_ensures(cell_to_json, (Cell::UInt(uint),), json) ==> json@ == JsonView::Int(
            uint as int,
        ),
        call_ensures(cell_to_json, (Cell::UBigInt(ubig),), json) ==> json@ == JsonView::Int(
            ubig as int,
        ),
        call_ensures(cell_to_json, (Cell::Text(text),), json) ==> json@ == JsonView::Str(text@),
        call_ensures(cell_to_json, (Cell::Other(text),), json) ==> json@ == JsonView::Str(text@),
        call_ensures(cell_to_json, (Cell::Null,), json) ==> json@ == JsonView::Null,
        call_ensures(cell_to_json, (Cell::Unreadable,), json) ==> json@ == JsonView::Null,
{
}

/// A statement is prepared and fetched from where it begins with one of nine words, and executed
/// otherwise; either way as it stands, on its connection, and with its limit.
pub proof fn law_run_query(
    connection_id: String,
    sql: String,
    cap: usize,
    front: Seq<char>,
    word: Seq<char>,
    rest: Seq<char>,
    run: Run,
)
    requires
        call_ensures(run_query, (connection_id, sql, cap), run),
    ensures
        sql@ == front + word + rest && blank(front) && opens_a_query(lowered(word)) ==> run
            is Select,
        run is Select ==> exists|a: Seq<char>, b: Seq<char>, c: Seq<char>|
            sql@ == #[trigger] (a + b + c) && blank(a) && opens_a_query(lowered(b)),
        run matches Run::Select(selection) ==> selection == (Selection { connection_id, sql, cap }),
        run matches Run::Execute(execution) ==> execution == (Execution { connection_id, sql }),
{
    if blank(front) && opens_a_query(lowered(word)) {
        law_statements_with_such_a_word_give_rows(front, word, rest);
    }
    if run is Select {
        let parts = law_no_other_statements_give_rows(sql@);
        assert(sql@ == parts.0 + parts.1 + parts.2);
    }
}

/// A query that runs has no row yet, its own columns in their order, and the limit it was given.
pub proof fn law_selection_opened(
    selection: Selection,
    columns: Vec<String>,
    i: int,
    set: ResultSet,
)
    requires
        call_ensures(Selection::opened, (selection, columns), set),
    ensures
        set@.connection_id == selection.connection_id@,
        set@.cap == selection.cap,
        set@.rows.len() == 0,
        set@.columns.len() == columns@.len(),
        0 <= i < columns@.len() ==> set@.columns[i] == columns@[i]@,
{
}

/// A row that was fetched is read where there are fewer rows than are wanted, and else ends the reply,
/// which then says that it was cut and holds the rows so far.
pub proof fn law_fetched(
    set: ResultSet,
    arrivals: Seq<Seq<Cell>>,
    next: Fetched,
    i: int,
    j: int,
)
    requires
        call_ensures(ResultSet::fetched, (set,), next),
        set@.rows == arrival_trees(arrivals),
    ensures
        next is Read <==> set@.rows.len() < set@.cap,
        next matches Fetched::Read(same) ==> same == set,
        next matches Fetched::Full(reply) ==> tells_rows(reply, set@, arrivals, true, i, j),
{
    if let Fetched::Full(reply) = next {
        law_rows_replies(reply, set@, arrivals, true, i, j);
    }
}

/// Whoever reads the reply finds the rows `arrivals` of `set`, and whether they were cut.
pub open spec fn tells_rows(
    reply: IrodoriConnectorBuffer,
    set: ResultView,
    arrivals: Seq<Seq<Cell>>,
    truncated: bool,
    i: int,
    j: int,
) -> bool {
    read_of(reply) matches Some(read) && {
        &&& field(read, "ok"@) == Some(JsonView::Bool(true))
        &&& field(read, "connectionId"@) == Some(JsonView::Str(set.connection_id))
        &&& field(read, "truncated"@) == Some(JsonView::Bool(truncated))
        &&& field(read, "columns"@) matches Some(JsonView::Array(columns)) && {
            &&& columns.len() == set.columns.len()
            &&& 0 <= j < columns.len() ==> columns[j] == JsonView::Str(set.columns[j])
        }
        &&& field(read, "rows"@) matches Some(JsonView::Array(rows)) && {
            &&& rows.len() == arrivals.len()
            &&& 0 <= i < rows.len() ==> (rows[i] matches JsonView::Array(cells) && {
                &&& cells.len() == arrivals[i].len()
                &&& 0 <= j < cells.len() && !(cell_tree(arrivals[i][j]) is Float) ==> cells[j]
                    == cell_tree(arrivals[i][j])
            })
        }
    }
}

/// A row that is taken in stands behind those before it, cell by cell, and nothing else changes.
pub proof fn law_push(set: ResultSet, cells: Vec<Cell>, i: int, next: ResultSet)
    requires
        call_ensures(ResultSet::push, (set, cells), next),
    ensures
        next@.connection_id == set@.connection_id,
        next@.cap == set@.cap,
        next@.columns == set@.columns,
        next@.rows.len() == set@.rows.len() + 1,
        next@.rows.drop_last() == set@.rows,
        next@.rows.last() matches JsonView::Array(row) && {
            &&& row.len() == cells@.len()
            &&& 0 <= i < row.len() ==> row[i] == cell_tree(cells@[i])
        },
{
    assert(next@.rows.drop_last() =~= set@.rows);
}

/// Where there are no more rows the reply holds those that came, and says that nothing was cut; a
/// statement without rows says so with no column and no row.
pub proof fn law_finished(
    set: ResultSet,
    execution: Execution,
    arrivals: Seq<Seq<Cell>>,
    reply: IrodoriConnectorBuffer,
    i: int,
    j: int,
)
    ensures
        call_ensures(ResultSet::finished, (set,), reply) && set@.rows == arrival_trees(arrivals)
            ==> tells_rows(reply, set@, arrivals, false, i, j),
        call_ensures(Execution::done, (execution,), reply) ==> (read_of(reply) matches Some(read)
            && {
            &&& field(read, "ok"@) == Some(JsonView::Bool(true))
            &&& field(read, "connectionId"@) == Some(JsonView::Str(execution.connection_id@))
            &&& field(read, "columns"@) == Some(JsonView::Array(Seq::empty()))
            &&& field(read, "rows"@) == Some(JsonView::Array(Seq::empty()))
            &&& field(read, "truncated"@) == Some(JsonView::Bool(false))
        }),
{
    if call_ensures(ResultSet::finished, (set,), reply) && set@.rows == arrival_trees(arrivals) {
        law_rows_replies(reply, set@, arrivals, false, i, j);
    }
    if call_ensures(Execution::done, (execution,), reply) {
        law_executed_replies(reply, execution.connection_id@);
    }
}

/// A statement runs on the connection that is open under the query's name, with its limit; where none
/// is open under it, the reply says so and names it.
pub proof fn law_query_attaches<C>(
    query: Query,
    sessions: &Sessions<C>,
    result: Result<(&C, Run), IrodoriConnectorBuffer>,
)
    requires
        call_ensures(Query::attach::<C>, (query, sessions), result),
    ensures
        result is Ok <==> sessions@.contains_key(query.connection_id@),
        result matches Ok((connection, run)) ==> {
            &&& *connection == sessions@[query.connection_id@]
            &&& run is Select <==> gives_rows(query.sql@)
            &&& run matches Run::Select(selection) ==> {
                &&& selection.connection_id@ == query.connection_id@
                &&& selection.sql@ == query.sql@
                &&& selection.cap == query.cap
            }
            &&& run matches Run::Execute(execution) ==> {
                &&& execution.connection_id@ == query.connection_id@
                &&& execution.sql@ == query.sql@
            }
        },
        result matches Err(reply) ==> tells_failure(
            reply,
            "connector.connectionNotFound"@,
            "no open connection: "@ + query.connection_id@,
        ),
{
    if let Err(reply) = result {
        law_failures_are_told(reply, query.connection_id@);
    }
}

/// Metadata is collected from the connection that is open under the request's name, beginning with its
/// tables; where none is open under it, the reply says so and names it.
pub proof fn law_metadata_attaches<C>(
    asked: Metadata,
    sessions: &Sessions<C>,
    result: Result<(&C, TableListing), IrodoriConnectorBuffer>,
)
    requires
        call_ensures(Metadata::attach::<C>, (asked, sessions), result),
    ensures
        result is Ok <==> sessions@.contains_key(asked.connection_id@),
        result matches Ok((connection, listing)) ==> {
            &&& *connection == sessions@[asked.connection_id@]
            &&& listing.connection_id@ == asked.connection_id@
            &&& listing.catalog@.len() == 0
            &&& listing.sql@
                == "select table_schema, table_name, table_type from information_schema.tables where table_schema not in ('information_schema', 'pg_catalog') order by table_schema, table_name"@
        },
        result matches Err(reply) ==> tells_failure(
            reply,
            "connector.connectionNotFound"@,
            "no open connection: "@ + asked.connection_id@,
        ),
{
    if let Err(reply) = result {
        law_failures_are_told(reply, asked.connection_id@);
    }
}

/// Reading the list of tables row by row gives what was listed, and then the list of columns is asked
/// for.
pub proof fn law_tables_are_listed(
    connection_id: String,
    first: TableListing,
    listing: TableListing,
    tables: Seq<TableRow>,
    row: TableRow,
    next: TableListing,
    columns: ColumnListing,
)
    ensures
        call_ensures(load_metadata, (connection_id,), first) ==> first.catalog@ == listed(
            Seq::empty(),
        ) && first.connection_id@ == connection_id@,
        call_ensures(TableListing::table, (listing, row), next) && listing.catalog@ == listed(
            tables,
        ) ==> next.catalog@ == listed(tables.push(row)) && next.connection_id@
            == listing.connection_id@ && next.sql@ == listing.sql@,
        call_ensures(TableListing::finished, (listing,), columns) ==> {
            &&& columns.catalog@ == listing.catalog@
            &&& columns.connection_id@ == listing.connection_id@
            &&& columns.sql@
                == "select table_schema, table_name, column_name, data_type, is_nullable, ordinal_position from information_schema.columns where table_schema not in ('information_schema', 'pg_catalog') order by table_schema, table_name, ordinal_position"@
        },
{
    assert(tables.push(row).drop_last() =~= tables);
}

/// Reading the list of columns row by row gives the objects with what was listed for them, and the
/// reply then shows that metadata under the connection's name.
pub proof fn law_columns_are_listed(
    listing: ColumnListing,
    tables: Seq<TableRow>,
    columns: Seq<ColumnRow>,
    row: ColumnRow,
    next: ColumnListing,
    reply: IrodoriConnectorBuffer,
)
    requires
        listing.catalog@ == with_columns(listed(tables), columns),
    ensures
        call_ensures(ColumnListing::column, (listing, row), next) ==> next.catalog@ == with_columns(
            listed(tables),
            columns.push(row),
        ) && next.connection_id@ == listing.connection_id@,
        call_ensures(ColumnListing::finished, (listing,), reply) ==> (
        read_of(reply) matches Some(read) && {
            &&& field(read, "ok"@) == Some(JsonView::Bool(true))
            &&& field(read, "connectionId"@) == Some(JsonView::Str(listing.connection_id@))
            &&& field(read, "metadata"@) == Some(
                catalog_tree(with_columns(listed(tables), columns)),
            )
        }),
{
    assert(columns.push(row).drop_last() =~= columns);
    if call_ensures(ColumnListing::finished, (listing,), reply) {
        law_metadata_replies(reply, listing.connection_id@, tables, columns, "ok"@);
    }
}

/// Rows that a catalog takes in one by one make it what was listed, and it shows just that.
pub proof fn law_catalogs_hold_what_was_listed(
    catalog: &mut Catalog,
    tables: Seq<TableRow>,
    columns: Seq<ColumnRow>,
    table: TableRow,
    column: ColumnRow,
)
    ensures
        call_ensures(Catalog::add_table, (catalog, table), ()) && old(catalog)@ == listed(tables)
            ==> final(catalog)@ == listed(tables.push(table)),
        call_ensures(Catalog::add_column, (catalog, column), ()) && old(catalog)@ == with_columns(
            listed(tables),
            columns,
        ) ==> final(catalog)@ == with_columns(listed(tables), columns.push(column)),
{
    assert(tables.push(table).drop_last() =~= tables);
    assert(columns.push(column).drop_last() =~= columns);
}

/// Each byte can be read off the two digits that it is written with.
pub proof fn law_hex_encode(bytes: &[u8], i: int, output: String)
    requires
        call_ensures(hex_encode, (bytes,), output),
        0 <= i < bytes@.len(),
    ensures
        output@.len() == 2 * bytes@.len(),
        is_hex_digit(output@[2 * i]) && is_hex_digit(output@[2 * i + 1]),
        bytes@[i] == 16 * digit_value(output@[2 * i]) + digit_value(output@[2 * i + 1]),
{
    law_bytes_can_be_read_off_their_digits(bytes@, i);
}

/// A statement gives rows exactly where, behind white space, it begins with one of nine words.
pub proof fn law_is_query(
    sql: &str,
    front: Seq<char>,
    word: Seq<char>,
    rest: Seq<char>,
    rows: bool,
)
    requires
        call_ensures(is_query, (sql,), rows),
    ensures
        sql@ == front + word + rest && blank(front) && opens_a_query(lowered(word)) ==> rows,
        rows ==> exists|a: Seq<char>, b: Seq<char>, c: Seq<char>|
            sql@ == #[trigger] (a + b + c) && blank(a) && opens_a_query(lowered(b)),
{
    if blank(front) && opens_a_query(lowered(word)) {
        law_statements_with_such_a_word_give_rows(front, word, rest);
    }
    if rows {
        let parts = law_no_other_statements_give_rows(sql@);
        assert(sql@ == parts.0 + parts.1 + parts.2);
    }
}

/// A request to run a statement, to show metadata or to close is about the connection that it names;
/// the statement is the request's, with its limit, and a request without one is refused.
pub proof fn law_requests_about_a_connection(
    request: &Json,
    text: Seq<char>,
    n: int,
    result: Result<Query, IrodoriConnectorBuffer>,
    asked: Metadata,
    closing: Close,
)
    ensures
        call_ensures(query, (request,), result) ==> {
            &&& names(request@, "sql"@, text) ==> (result matches Ok(query) && {
                &&& query.sql@ == text
                &&& query.connection_id@ == connection_named(Some(request@))
                &&& field(request@, "maxRows"@) == Some(JsonView::Int(n)) ==> honours(
                    query.cap as int,
                    n,
                )
                &&& field(request@, "maxRows"@) is None && field(request@, "limit"@) is None
                    ==> query.cap == 10_000
            })
            &&& lacks(request@, "sql"@) ==> (result matches Err(reply) && tells_failure(
                reply,
                "connector.invalidRequest"@,
                "query requires a string sql field."@,
            ))
        },
        call_ensures(metadata, (request,), asked) ==> asked.connection_id@ == connection_named(
            Some(request@),
        ),
        call_ensures(close, (request,), closing) ==> closing.connection_id@ == connection_named(
            Some(request@),
        ),
{
    law_row_limits_are_honoured(request@, n);
    law_text_fields_count_where_they_are_not_blank(request@, "sql"@, text);
    if let Err(reply) = result {
        law_failures_are_told(reply, text);
    }
}

/// A request comes to what its method comes to, a request without a method is refused, and no request
/// at all asks for the connector's health.
pub proof fn law_dispatch(request: Json, method: Seq<char>, call: Call)
    ensures
        call_ensures(dispatch, (Some(request),), call) ==> {
            &&& names(request@, "method"@, method) ==> answers(call, method, request@)
            &&& lacks(request@, "method"@) ==> (call matches Call::Reply(reply) && tells_failure(
                reply,
                "connector.invalidRequest"@,
                "Connector request needs a string method."@,
            ))
        },
        call_ensures(dispatch, (None,), call) ==> tells_health(call),
{
    law_requests_come_to_their_method(call, request@, method);
}

/// A buffer comes to what the request in it comes to; one that holds no text, or a text that is no
/// JSON, is refused, and a blank one asks for the connector's health.
pub proof fn law_call_json(
    request: IrodoriConnectorBuffer,
    text: Seq<char>,
    tree: JsonView,
    words: Seq<char>,
    method: Seq<char>,
    call: Call,
)
    requires
        call_ensures(call_json, (request,), call) || call_ensures(
            irodori_connector_call_json,
            (request,),
            call,
        ),
    ensures
        request.text() is None ==> (call matches Call::Reply(reply) && tells_failure(
            reply,
            "connector.invalidRequest"@,
            "Connector request buffer must be empty or valid UTF-8 JSON."@,
        )),
        request.text() == Some(text) && blank(text) ==> tells_health(call),
        request.text() == Some(text) && !blank(text) && json_parse(trimmed(text)) == Err::<
            JsonView,
            Seq<char>,
        >(words) ==> (call matches Call::Reply(reply) && tells_failure(
            reply,
            "connector.invalidJson"@,
            "Connector request must be valid JSON: "@ + words,
        )),
        request.text() == Some(text) && !blank(text) && json_parse(trimmed(text)) == Ok::<
            JsonView,
            Seq<char>,
        >(tree) ==> {
            &&& names(tree, "method"@, method) ==> answers(call, method, tree)
            &&& lacks(tree, "method"@) ==> (call matches Call::Reply(reply) && tells_failure(
                reply,
                "connector.invalidRequest"@,
                "Connector request needs a string method."@,
            ))
        },
{
    law_requests_come_to_their_method(call, tree, method);
    if let Call::Reply(reply) = call {
        law_a_failure_is_told(
            reply,
            "connector.invalidRequest"@,
            "Connector request buffer must be empty or valid UTF-8 JSON."@,
        );
        law_a_failure_is_told(
            reply,
            "connector.invalidJson"@,
            "Connector request must be valid JSON: "@ + words,
        );
    }
}

/// A value that is written and read again is what it was, where it has no float and is no deeper than
/// the parser goes.
pub proof fn law_json_is_read_back(
    value: Json,
    text: String,
    again: &str,
    result: Result<Json, String>,
)
    requires
        call_ensures(Json::to_text, (value,), text),
        again@ == text@,
        call_ensures(Json::parse, (again,), result),
        fits(value@, 127, false),
    ensures
        result matches Ok(read) && read@ == value@,
{
}

/// A field is found under the name that it was put under, and another name finds what it did before.
pub proof fn law_fields_are_found(
    fields: Fields,
    name: &str,
    value: Json,
    more: Fields,
    asked: &str,
    found: Option<&Json>,
    before: Option<&Json>,
)
    requires
        call_ensures(Fields::with, (fields, name, value), more),
        call_ensures(Json::get, (&Json::Object(more), asked), found),
        call_ensures(Json::get, (&Json::Object(fields), asked), before),
    ensures
        asked@ == name@ ==> (found matches Some(inside) && inside@ == value@),
        asked@ != name@ ==> (found is Some <==> before is Some),
        asked@ != name@ && found is Some ==> found->Some_0@ == before->Some_0@,
{
    assert(Json::Object(more)@ == JsonView::Object(more@));
    assert(Json::Object(fields)@ == JsonView::Object(fields@));
}

/// The connector hands out its name, its manifest and its configuration as they stand, and speaks
/// version 1 of the ABI.
pub proof fn law_entry_points(version: u32, buffer: IrodoriConnectorBuffer)
    ensures
        call_ensures(irodori_extension_abi_version, (), version) ==> version == 1,
        call_ensures(irodori_connector_engine_json, (), buffer) ==> buffer.text() == Some(
            "motherduck"@,
        ),
        call_ensures(irodori_extension_manifest_json, (), buffer) ==> buffer.text() == Some(
            MANIFEST_JSON@,
        ),
        call_ensures(irodori_connector_config_json, (), buffer) ==> buffer.text() == Some(
            CONFIG_JSON@,
        ),
{
}

}
