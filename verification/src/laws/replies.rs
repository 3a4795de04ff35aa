//! What holds of replies: what whoever reads them as JSON finds in them.
use crate::abi::{error_tree, ok_tree, IrodoriConnectorBuffer};
use crate::catalog::{
    catalog_tree, columns_failed_tree, metadata_tree, tables_failed_tree, ColumnRow, TableRow,
};
use crate::catalog_laws::{law_metadata_reads_back, listed, with_columns};
use crate::connect::{
    connect_failed_tree, connected_tree, data_failed_tree, poisoned_tree, schema_failed_tree,
};
use crate::documents::{CONFIG_JSON, MANIFEST_JSON};
use crate::driver::{
    closed_tree, description_tree, document_tree, health_fields, no_sql_tree, not_found_tree,
    replies, unknown_method_tree, Call,
};
use crate::json::{
    alike, field, fits, json_parse, json_text, lemma_alike_to_plain, plain, JsonView,
};
use crate::laws::{
    arrival_trees, law_description_reads_back, law_failure_says_why,
    law_reading_rows_keeps_all_but_floats, law_replies_read_back, law_rows_are_readable,
    law_rows_replies_have_these_fields, lemma_alike_field,
};
use crate::query::{
    cell_tree, executed_tree, names_tree, query_failed_tree, row_tree, rows_tree, shaped, Cell,
    ResultView,
};
use vstd::prelude::*;
use vstd::utf8::*;

verus! {

/// The text in a buffer is that whose UTF-8 bytes are in front of its memory, as many as `len` says;
/// bytes that are no UTF-8 hold none, and neither does a null buffer that is to be read.
pub proof fn law_buffers_hold_utf8(buffer: IrodoriConnectorBuffer, text: Seq<char>)
    ensures
        buffer.ptr matches Some(memory) ==> {
            &&& buffer.valid() <==> buffer.len <= memory@.len()
            &&& memory@.take(buffer.len as int) == encode_utf8(text) ==> buffer.text() == Some(text)
            &&& buffer.text() is Some <==> valid_utf8(memory@.take(buffer.len as int))
        },
        buffer.ptr is None && buffer.len == 0 ==> buffer.text() == Some(Seq::<char>::empty()),
        buffer.ptr is None && buffer.len > 0 ==> buffer.text() is None,
        buffer.ptr is None ==> buffer.valid(),
{
    encode_utf8_valid_utf8(text);
    encode_utf8_decode_utf8(text);
}

/// A buffer that holds a text is valid, is not null, has the UTF-8 bytes of the text and nothing else
/// for its memory, and is read as that text.
pub proof fn law_a_buffer_is_its_text(buffer: IrodoriConnectorBuffer, text: Seq<char>)
    requires
        buffer.holds(text),
    ensures
        buffer.valid(),
        buffer.text() == Some(text),
        buffer.ptr matches Some(memory) && memory@ == encode_utf8(text) && memory@.len()
            == buffer.len,
{
    let memory = buffer.ptr->Some_0;
    assert(memory@.take(buffer.len as int) =~= memory@);
}

/// What is read of a reply as JSON.
pub open spec fn read_of(reply: IrodoriConnectorBuffer) -> Option<JsonView> {
    match reply.text() {
        Some(text) => match json_parse(text) {
            Ok(tree) => Some(tree),
            Err(_) => None,
        },
        None => None,
    }
}

/// Whoever reads a reply gets what it carries, but for the values of floats, as long as that is nested
/// no deeper than the parser goes.
pub proof fn law_a_reply_is_read_as_what_it_carries(reply: IrodoriConnectorBuffer, tree: JsonView)
    requires
        reply.carries(tree),
    ensures
        reply.text() == Some(json_text(tree)),
        fits(tree, 127, false) ==> read_of(reply) == Some(tree),
        fits(tree, 127, true) ==> (read_of(reply) matches Some(read) && alike(read, tree, 127)),
{
}

/// `tree` is a failure with this code and this message, and nothing else.
pub open spec fn refuses(tree: JsonView, code: Seq<char>, message: Seq<char>) -> bool {
    &&& field(tree, "ok"@) == Some(JsonView::Bool(false))
    &&& field(tree, "error"@) matches Some(error) && {
        &&& field(error, "code"@) == Some(JsonView::Str(code))
        &&& field(error, "message"@) == Some(JsonView::Str(message))
        &&& forall|name: Seq<char>| #[trigger]
            field(error, name) is Some ==> name == "code"@ || name == "message"@
    }
    &&& forall|name: Seq<char>| #[trigger]
        field(tree, name) is Some ==> name == "ok"@ || name == "error"@
}

/// Whoever reads the reply finds a failure with this code and this message.
pub open spec fn tells_failure(
    reply: IrodoriConnectorBuffer,
    code: Seq<char>,
    message: Seq<char>,
) -> bool {
    read_of(reply) matches Some(read) && refuses(read, code, message)
}

/// A failure has its code and its message, and nothing else.
pub proof fn lemma_error_refuses(code: Seq<char>, message: Seq<char>)
    ensures
        refuses(error_tree(code, message), code, message),
{
    law_failure_says_why(code, message);
}

/// A failure is read as a failure with its code and its message.
pub proof fn law_a_failure_is_told(
    reply: IrodoriConnectorBuffer,
    code: Seq<char>,
    message: Seq<char>,
)
    ensures
        reply.carries(error_tree(code, message)) ==> tells_failure(reply, code, message),
{
    law_failure_says_why(code, message);
    lemma_error_refuses(code, message);
}

/// Each thing that can go wrong is told with a code of its own, and with the words of what went wrong.
pub proof fn law_failures_are_told(reply: IrodoriConnectorBuffer, words: Seq<char>)
    ensures
        reply.carries(connect_failed_tree(words)) ==> tells_failure(
            reply,
            "connector.connectFailed"@,
            "connect failed: "@ + words,
        ),
        reply.carries(schema_failed_tree(words)) ==> tells_failure(
            reply,
            "connector.seedFailed"@,
            "duckdb sample schema failed: "@ + words,
        ),
        reply.carries(data_failed_tree(words)) ==> tells_failure(
            reply,
            "connector.seedFailed"@,
            "duckdb sample data failed: "@ + words,
        ),
        reply.carries(poisoned_tree()) ==> tells_failure(
            reply,
            "connector.statePoisoned"@,
            "Connector connection state is poisoned."@,
        ),
        reply.carries(query_failed_tree(words)) ==> tells_failure(
            reply,
            "connector.queryFailed"@,
            "query failed: "@ + words,
        ),
        reply.carries(tables_failed_tree(words)) ==> tells_failure(
            reply,
            "connector.metadataFailed"@,
            "metadata objects failed: "@ + words,
        ),
        reply.carries(columns_failed_tree(words)) ==> tells_failure(
            reply,
            "connector.metadataFailed"@,
            "metadata columns failed: "@ + words,
        ),
        reply.carries(not_found_tree(words)) ==> tells_failure(
            reply,
            "connector.connectionNotFound"@,
            "no open connection: "@ + words,
        ),
        reply.carries(unknown_method_tree(words)) ==> tells_failure(
            reply,
            "connector.unknownMethod"@,
            "unknown connector method: "@ + words,
        ),
        reply.carries(no_sql_tree()) ==> tells_failure(
            reply,
            "connector.invalidRequest"@,
            "query requires a string sql field."@,
        ),
        reply.carries(
            error_tree(
                "connector.invalidRequest"@,
                "Connector request needs a string method."@,
            ),
        ) ==> tells_failure(
            reply,
            "connector.invalidRequest"@,
            "Connector request needs a string method."@,
        ),
{
    law_a_failure_is_told(reply, "connector.connectFailed"@, "connect failed: "@ + words);
    law_a_failure_is_told(reply, "connector.seedFailed"@, "duckdb sample schema failed: "@ + words);
    law_a_failure_is_told(reply, "connector.seedFailed"@, "duckdb sample data failed: "@ + words);
    law_a_failure_is_told(
        reply,
        "connector.statePoisoned"@,
        "Connector connection state is poisoned."@,
    );
    law_a_failure_is_told(reply, "connector.queryFailed"@, "query failed: "@ + words);
    law_a_failure_is_told(reply, "connector.metadataFailed"@, "metadata objects failed: "@ + words);
    law_a_failure_is_told(reply, "connector.metadataFailed"@, "metadata columns failed: "@ + words);
    law_a_failure_is_told(reply, "connector.connectionNotFound"@, "no open connection: "@ + words);
    law_a_failure_is_told(reply, "connector.unknownMethod"@, "unknown connector method: "@ + words);
    law_a_failure_is_told(
        reply,
        "connector.invalidRequest"@,
        "query requires a string sql field."@,
    );
    law_a_failure_is_told(
        reply,
        "connector.invalidRequest"@,
        "Connector request needs a string method."@,
    );
}

/// `tree` tells of success, of the engine `motherduck`, of version 1 of the ABI and of a linked driver.
pub open spec fn shows_health(tree: JsonView) -> bool {
    &&& field(tree, "ok"@) == Some(JsonView::Bool(true))
    &&& field(tree, "engine"@) == Some(JsonView::Str("motherduck"@))
    &&& field(tree, "abiVersion"@) == Some(JsonView::Int(1))
    &&& field(tree, "driverLinked"@) == Some(JsonView::Bool(true))
}

/// Whoever reads the reply finds the connector's health, and nothing else.
pub open spec fn tells_health(call: Call) -> bool {
    call matches Call::Reply(reply) && read_of(reply) matches Some(read) && {
        &&& shows_health(read)
        &&& forall|name: Seq<char>| #[trigger]
            field(read, name) is Some ==> name == "ok"@ || name == "engine"@ || name
                == "abiVersion"@ || name == "driverLinked"@
    }
}

/// The names of the fields of health and of the description are different words.
proof fn lemma_health_names_differ()
    ensures
        "ok"@.len() == 2,
        "engine"@.len() == 6 && "engine"@[0] == 'e',
        "config"@.len() == 6 && "config"@[0] == 'c',
        "manifest"@.len() == 8,
        "abiVersion"@.len() == 10,
        "driverLinked"@.len() == 12,
{
    reveal_strlit("ok");
    reveal_strlit("engine");
    reveal_strlit("config");
    reveal_strlit("manifest");
    reveal_strlit("abiVersion");
    reveal_strlit("driverLinked");
}

/// The reply about the connector's health is read as such.
pub proof fn law_health_replies(call: Call)
    requires
        replies(call, ok_tree(health_fields())),
    ensures
        tells_health(call),
{
    lemma_health_names_differ();
    law_replies_read_back(Seq::empty(), Seq::empty(), true);
}

/// What a document's text is as JSON; null where it is none.
pub open spec fn document_of(text: Seq<char>) -> JsonView {
    match json_parse(text) {
        Ok(tree) => tree,
        Err(_) => JsonView::Null,
    }
}

/// Whoever reads the reply finds the connector's health beside its manifest and its configuration, as
/// long as these are no deeper than the parser goes.
pub open spec fn describes(call: Call) -> bool {
    let manifest = document_of(MANIFEST_JSON@);
    let config = document_of(CONFIG_JSON@);
    call matches Call::Reply(reply) && (fits(manifest, 126, true) && fits(config, 126, true)
        ==> shows_documents(reply, manifest, config))
}

/// Whoever reads the reply finds health, this manifest and this configuration, but for the values of
/// floats.
pub open spec fn shows_documents(
    reply: IrodoriConnectorBuffer,
    manifest: JsonView,
    config: JsonView,
) -> bool {
    read_of(reply) matches Some(read) && {
        &&& shows_health(read)
        &&& field(read, "manifest"@) matches Some(found) && {
            &&& alike(found, manifest, 126)
            &&& fits(manifest, 126, false) ==> found == manifest
        }
        &&& field(read, "config"@) matches Some(found) && {
            &&& alike(found, config, 126)
            &&& fits(config, 126, false) ==> found == config
        }
    }
}

/// A description is read as health beside the two documents that it was given.
pub proof fn law_descriptions_show_their_documents(
    reply: IrodoriConnectorBuffer,
    manifest: JsonView,
    config: JsonView,
)
    requires
        reply.carries(description_tree(manifest, config)),
        fits(manifest, 126, true),
        fits(config, 126, true),
    ensures
        shows_documents(reply, manifest, config),
{
    let tree = description_tree(manifest, config);
    law_description_reads_back(manifest, config);
    lemma_health_names_differ();
    let read = read_of(reply)->Some_0;
    assert(alike(read, tree, 127));
    lemma_alike_field(read, tree, "ok"@);
    lemma_alike_field(read, tree, "engine"@);
    lemma_alike_field(read, tree, "abiVersion"@);
    lemma_alike_field(read, tree, "driverLinked"@);
    lemma_alike_field(read, tree, "manifest"@);
    lemma_alike_field(read, tree, "config"@);
    if plain(manifest, 126) {
        lemma_alike_to_plain(field(read, "manifest"@)->Some_0, manifest, 126);
    }
    if plain(config, 126) {
        lemma_alike_to_plain(field(read, "config"@)->Some_0, config, 126);
    }
}

/// The connector describes itself with its own manifest and configuration.
pub proof fn law_description_replies(call: Call)
    requires
        replies(
            call,
            description_tree(
                document_tree(json_parse(MANIFEST_JSON@)),
                document_tree(json_parse(CONFIG_JSON@)),
            ),
        ),
    ensures
        describes(call),
{
    let manifest = document_of(MANIFEST_JSON@);
    let config = document_of(CONFIG_JSON@);
    if fits(manifest, 126, true) && fits(config, 126, true) {
        law_descriptions_show_their_documents(call->Reply_0, manifest, config);
    }
}

/// Whoever reads the reply to a connection finds success, the engine, the name of the connection, the
/// version that the database told and a linked driver, and nothing else.
pub proof fn law_connected_replies(
    reply: IrodoriConnectorBuffer,
    connection_id: Seq<char>,
    version: Seq<char>,
    name: Seq<char>,
)
    requires
        reply.carries(connected_tree(connection_id, version)),
    ensures
        read_of(reply) matches Some(read) && {
            &&& field(read, "ok"@) == Some(JsonView::Bool(true))
            &&& field(read, "engine"@) == Some(JsonView::Str("motherduck"@))
            &&& field(read, "connectionId"@) == Some(JsonView::Str(connection_id))
            &&& field(read, "serverVersion"@) == Some(JsonView::Str(version))
            &&& field(read, "driverLinked"@) == Some(JsonView::Bool(true))
            &&& field(read, name) is Some ==> name == "ok"@ || name == "engine"@ || name
                == "connectionId"@ || name == "serverVersion"@ || name == "driverLinked"@
        },
{
    law_replies_read_back(connection_id, version, true);
    lemma_health_names_differ();
    reveal_strlit("connectionId");
    reveal_strlit("serverVersion");
    reveal_strlit("driverLinked");
    assert("connectionId"@.len() == 12 && "connectionId"@[0] == 'c');
    assert("driverLinked"@[0] == 'd');
    assert("serverVersion"@.len() == 13);
}

/// Whoever reads the reply to closing finds success, the name of the connection and whether it was
/// open, and nothing else.
pub proof fn law_closed_replies(
    reply: IrodoriConnectorBuffer,
    connection_id: Seq<char>,
    existed: bool,
    name: Seq<char>,
)
    requires
        reply.carries(closed_tree(connection_id, existed)),
    ensures
        read_of(reply) matches Some(read) && {
            &&& field(read, "ok"@) == Some(JsonView::Bool(true))
            &&& field(read, "connectionId"@) == Some(JsonView::Str(connection_id))
            &&& field(read, "closed"@) == Some(JsonView::Bool(existed))
            &&& field(read, name) is Some ==> name == "ok"@ || name == "connectionId"@ || name
                == "closed"@
        },
{
    law_replies_read_back(connection_id, Seq::empty(), existed);
    reveal_strlit("ok");
    reveal_strlit("connectionId");
    reveal_strlit("closed");
    assert("ok"@.len() == 2 && "connectionId"@.len() == 12 && "closed"@.len() == 6);
}

/// Whoever reads the reply to a statement without rows finds success, the name of the connection, no
/// column, no row, and that nothing was cut.
pub proof fn law_executed_replies(reply: IrodoriConnectorBuffer, connection_id: Seq<char>)
    requires
        reply.carries(executed_tree(connection_id)),
    ensures
        read_of(reply) matches Some(read) && {
            &&& field(read, "ok"@) == Some(JsonView::Bool(true))
            &&& field(read, "connectionId"@) == Some(JsonView::Str(connection_id))
            &&& field(read, "columns"@) == Some(JsonView::Array(Seq::empty()))
            &&& field(read, "rows"@) == Some(JsonView::Array(Seq::empty()))
            &&& field(read, "truncated"@) == Some(JsonView::Bool(false))
        },
{
    law_replies_read_back(connection_id, Seq::empty(), true);
    let none = ResultView {
        connection_id,
        cap: 0,
        columns: Seq::empty(),
        rows: Seq::empty(),
    };
    law_rows_replies_have_these_fields(none, false, "ok"@);
    assert(names_tree(none.columns) =~= Seq::empty());
}

/// Whoever reads the reply to a query finds success, the name of the connection, each column's name,
/// whether it was cut, and the rows that came, in their order: each cell as its JSON, or a float for a
/// float.
pub proof fn law_rows_replies(
    reply: IrodoriConnectorBuffer,
    set: ResultView,
    arrivals: Seq<Seq<Cell>>,
    truncated: bool,
    i: int,
    j: int,
)
    requires
        reply.carries(rows_tree(set, truncated)),
        set.rows == arrival_trees(arrivals),
        shaped(set),
    ensures
        read_of(reply) matches Some(read) && {
            &&& field(read, "ok"@) == Some(JsonView::Bool(true))
            &&& field(read, "connectionId"@) == Some(JsonView::Str(set.connection_id))
            &&& field(read, "truncated"@) == Some(JsonView::Bool(truncated))
            &&& field(read, "columns"@) matches Some(JsonView::Array(columns)) && {
                &&& columns.len() == set.columns.len()
                &&& 0 <= j < columns.len() ==> columns[j] == JsonView::Str(set.columns[j])
            }
            &&& field(read, "rows"@) matches Some(JsonView::Array(rows)) && {
                &&& rows.len() == arrivals.len()
                &&& 0 <= i < rows.len() ==> (rows[i] matches JsonView::Array(cells) && {
                    &&& cells.len() == arrivals[i].len()
                    &&& cells.len() == set.columns.len()
                    &&& 0 <= j < cells.len() ==> if cell_tree(arrivals[i][j]) is Float {
                        cells[j] is Float
                    } else {
                        cells[j] == cell_tree(arrivals[i][j])
                    }
                })
            }
        },
{
    law_rows_are_readable(set, arrivals, truncated);
    let read = read_of(reply)->Some_0;
    law_reading_rows_keeps_all_but_floats(read, set, truncated, i, j);
    if 0 <= i < arrivals.len() {
        assert(set.rows[i] == row_tree(arrivals[i]));
    }
}

/// Whoever reads the reply with the metadata finds success, the name of the connection and the
/// metadata, and nothing else.
pub proof fn law_metadata_replies(
    reply: IrodoriConnectorBuffer,
    connection_id: Seq<char>,
    tables: Seq<TableRow>,
    columns: Seq<ColumnRow>,
    name: Seq<char>,
)
    requires
        reply.carries(metadata_tree(connection_id, with_columns(listed(tables), columns))),
    ensures
        read_of(reply) matches Some(read) && {
            &&& field(read, "ok"@) == Some(JsonView::Bool(true))
            &&& field(read, "connectionId"@) == Some(JsonView::Str(connection_id))
            &&& field(read, "metadata"@) == Some(
                catalog_tree(with_columns(listed(tables), columns)),
            )
            &&& field(read, name) is Some ==> name == "ok"@ || name == "connectionId"@ || name
                == "metadata"@
        },
{
    law_metadata_reads_back(connection_id, tables, columns);
    reveal_strlit("ok");
    reveal_strlit("connectionId");
    reveal_strlit("metadata");
    assert("ok"@.len() == 2 && "connectionId"@.len() == 12 && "metadata"@.len() == 8);
}

}
