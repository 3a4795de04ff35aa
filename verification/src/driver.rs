//! The requests that the connector answers.
use crate::abi::{
    connection_id, connection_named, error, error_tree, joined, max_rows, ok, ok_tree, owned_buffer,
    parse_request, request_in, request_method, rows_wanted, string_field, string_in,
    IrodoriConnectorBuffer,
};
use crate::catalog::{load_metadata, ObjectView, TableListing, TABLES_SQL};
use crate::connect::{connect, seed_wanted, target_in, Opening, VERSION_SQL};
use crate::documents::{CONFIG_JSON, MANIFEST_JSON};
use crate::json::{json_parse, no_fields, Fields, Json, JsonView};
use crate::query::{gives_rows, run_query, Execution, Run, Selection};
use crate::sessions::Sessions;
use crate::text::same;
use crate::{ABI_VERSION, ENGINE};
use vstd::prelude::*;
use vstd::string::*;

verus! {

/// The connector's health in JSON.
pub open spec fn health_fields() -> Map<Seq<char>, JsonView> {
    no_fields().insert("engine"@, JsonView::Str(ENGINE@)).insert(
        "abiVersion"@,
        JsonView::Int(ABI_VERSION as int),
    ).insert("driverLinked"@, JsonView::Bool(true))
}

/// A text as JSON; null where it is none.
pub open spec fn document_tree(parsed: Result<JsonView, Seq<char>>) -> JsonView {
    match parsed {
        Ok(tree) => tree,
        Err(_) => JsonView::Null,
    }
}

/// The connector's health, with its manifest and its configuration.
pub open spec fn description_tree(manifest: JsonView, config: JsonView) -> JsonView {
    ok_tree(health_fields().insert("manifest"@, manifest).insert("config"@, config))
}

/// The reply to a request about a connection that is not open.
pub open spec fn not_found_tree(connection_id: Seq<char>) -> JsonView {
    error_tree("connector.connectionNotFound"@, "no open connection: "@ + connection_id)
}

/// The reply to a query without a statement.
pub open spec fn no_sql_tree() -> JsonView {
    error_tree("connector.invalidRequest"@, "query requires a string sql field."@)
}

/// The reply to a request to close a connection.
pub open spec fn closed_tree(connection_id: Seq<char>, existed: bool) -> JsonView {
    ok_tree(
        no_fields().insert("connectionId"@, JsonView::Str(connection_id)).insert(
            "closed"@,
            JsonView::Bool(existed),
        ),
    )
}

/// The reply to a method that the connector does not know.
pub open spec fn unknown_method_tree(method: Seq<char>) -> JsonView {
    error_tree("connector.unknownMethod"@, "unknown connector method: "@ + method)
}

/// What a request comes to.
#[derive(Debug)]
pub enum Call {
    /// The reply.
    Reply(IrodoriConnectorBuffer),
    /// Open a database.
    Connect(Opening),
    /// Find the connection and run a statement on it.
    Query(Query),
    /// Find the connection and collect its metadata.
    Metadata(Metadata),
    /// Close a connection.
    Close(Close),
}

/// A statement that is to be run on a connection.
#[derive(Debug)]
pub struct Query {
    pub connection_id: String,
    pub sql: String,
    pub cap: usize,
}

/// The metadata of a connection is to be collected.
#[derive(Debug)]
pub struct Metadata {
    pub connection_id: String,
}

/// A connection is to be closed.
#[derive(Debug)]
pub struct Close {
    pub connection_id: String,
}

/// `call` is the reply that carries `tree`.
pub open spec fn replies(call: Call, tree: JsonView) -> bool {
    call matches Call::Reply(reply) && reply.carries(tree)
}

/// `call` is the reply that holds `text` itself.
pub open spec fn hands_out(call: Call, text: Seq<char>) -> bool {
    call matches Call::Reply(reply) && reply.holds(text)
}

/// `call` is what the method `method` of a request comes to.
pub open spec fn answers(call: Call, method: Seq<char>, tree: JsonView) -> bool {
    let id = connection_named(Some(tree));
    if method == "health"@ || method == "ping"@ {
        replies(call, ok_tree(health_fields()))
    } else if method == "describe"@ || method == "capabilities"@ {
        replies(
            call,
            description_tree(
                document_tree(json_parse(MANIFEST_JSON@)),
                document_tree(json_parse(CONFIG_JSON@)),
            ),
        )
    } else if method == "manifest"@ {
        hands_out(call, MANIFEST_JSON@)
    } else if method == "config"@ {
        hands_out(call, CONFIG_JSON@)
    } else if method == "connect"@ {
        &&& call matches Call::Connect(opening)
        &&& opening.connection_id@ == id
        &&& opening.target@ == target_in(tree)
        &&& opening.version_sql@ == VERSION_SQL@
        &&& opening.seed == seed_wanted(tree, id)
    } else if method == "query"@ {
        match string_in(tree, "sql"@) {
            None => replies(call, no_sql_tree()),
            Some(sql) => {
                &&& call matches Call::Query(query)
                &&& query.connection_id@ == id
                &&& query.sql@ == sql
                &&& query.cap == rows_wanted(tree)
            },
        }
    } else if method == "metadata"@ {
        call matches Call::Metadata(metadata) && metadata.connection_id@ == id
    } else if method == "close"@ {
        call matches Call::Close(close) && close.connection_id@ == id
    } else {
        replies(call, unknown_method_tree(method))
    }
}

/// `call` is what a request comes to, given what was read of it.
pub open spec fn answers_request(call: Call, request: Option<JsonView>) -> bool {
    match request {
        None => replies(call, ok_tree(health_fields())),
        Some(tree) => match string_in(tree, "method"@) {
            None => replies(
                call,
                error_tree(
                    "connector.invalidRequest"@,
                    "Connector request needs a string method."@,
                ),
            ),
            Some(method) => answers(call, method, tree),
        },
    }
}

/// The connector's health.
fn health_payload() -> (payload: Fields)
    ensures
        payload@ == health_fields(),
{
    Fields::new().with("engine", Json::Str(ENGINE.to_owned())).with(
        "abiVersion",
        Json::Unsigned(ABI_VERSION as u64),
    ).with("driverLinked", Json::Bool(true))
}

/// A text as JSON; null where it is none.
fn document(text: &str) -> (json: Json)
    ensures
        json@ == document_tree(json_parse(text@)),
{
    match Json::parse(text) {
        Ok(json) => json,
        Err(_) => Json::Null,
    }
}

/// The connector's health, with its manifest and its configuration.
pub fn describe(manifest: Json, config: Json) -> (reply: IrodoriConnectorBuffer)
    ensures
        reply.carries(description_tree(manifest@, config@)),
{
    ok(health_payload().with("manifest", manifest).with("config", config))
}

/// What a buffer asks for.
pub fn call_json(request: IrodoriConnectorBuffer) -> (call: Call)
    requires
        request.valid(),
    ensures
        match request_in(request.text()) {
            Err(tree) => replies(call, tree),
            Ok(asked) => answers_request(call, asked),
        },
{
    match parse_request(&request) {
        Err(reply) => Call::Reply(reply),
        Ok(asked) => dispatch(asked),
    }
}

/// What a request asks for.
pub fn dispatch(request: Option<Json>) -> (call: Call)
    ensures
        answers_request(
            call,
            match request {
                Some(json) => Some(json@),
                None => None,
            },
        ),
{
    let method = match request_method(request.as_ref()) {
        Ok(method) => method,
        Err(reply) => {
            return Call::Reply(reply);
        },
    };
    if same(method, "health") || same(method, "ping") {
        return Call::Reply(ok(health_payload()));
    }
    if same(method, "describe") || same(method, "capabilities") {
        return Call::Reply(describe(document(MANIFEST_JSON), document(CONFIG_JSON)));
    }
    if same(method, "manifest") {
        return Call::Reply(owned_buffer(MANIFEST_JSON.to_owned()));
    }
    if same(method, "config") {
        return Call::Reply(owned_buffer(CONFIG_JSON.to_owned()));
    }
    match &request {
        None => Call::Reply(ok(health_payload())),
        Some(json) => {
            if same(method, "connect") {
                Call::Connect(connect(json))
            } else if same(method, "query") {
                match query(json) {
                    Ok(query) => Call::Query(query),
                    Err(reply) => Call::Reply(reply),
                }
            } else if same(method, "metadata") {
                Call::Metadata(metadata(json))
            } else if same(method, "close") {
                Call::Close(close(json))
            } else {
                Call::Reply(
                    error("connector.unknownMethod", joined("unknown connector method: ", method)),
                )
            }
        },
    }
}

/// What a request to run a statement wants.
pub fn query(request: &Json) -> (result: Result<Query, IrodoriConnectorBuffer>)
    ensures
        match result {
            Ok(query) => {
                &&& query.connection_id@ == connection_named(Some(request@))
                &&& string_in(request@, "sql"@) == Some(query.sql@)
                &&& query.cap == rows_wanted(request@)
            },
            Err(reply) => string_in(request@, "sql"@) is None && reply.carries(no_sql_tree()),
        },
{
    match string_field(request, "sql") {
        Some(sql) => Ok(
            Query {
                connection_id: connection_id(Some(request)),
                sql: sql.to_owned(),
                cap: max_rows(request),
            },
        ),
        None => Err(
            error("connector.invalidRequest", "query requires a string sql field.".to_owned()),
        ),
    }
}

/// What a request for metadata wants.
pub fn metadata(request: &Json) -> (metadata: Metadata)
    ensures
        metadata.connection_id@ == connection_named(Some(request@)),
{
    Metadata { connection_id: connection_id(Some(request)) }
}

/// What a request to close a connection wants.
pub fn close(request: &Json) -> (close: Close)
    ensures
        close.connection_id@ == connection_named(Some(request@)),
{
    Close { connection_id: connection_id(Some(request)) }
}

/// The reply to a request about a connection that is not open.
fn not_found(connection_id: &str) -> (reply: IrodoriConnectorBuffer)
    ensures
        reply.carries(not_found_tree(connection_id@)),
{
    error("connector.connectionNotFound", joined("no open connection: ", connection_id))
}

impl Query {
    /// Finds the connection, and says how to run the statement on it.
    pub fn attach<'a, C>(self, sessions: &'a Sessions<C>) -> (result: Result<
        (&'a C, Run),
        IrodoriConnectorBuffer,
    >)
        ensures
            match result {
                Ok((connection, run)) => {
                    &&& sessions@.contains_key(self.connection_id@)
                    &&& *connection == sessions@[self.connection_id@]
                    &&& run == (if gives_rows(self.sql@) {
                        Run::Select(
                            Selection {
                                connection_id: self.connection_id,
                                sql: self.sql,
                                cap: self.cap,
                            },
                        )
                    } else {
                        Run::Execute(
                            Execution { connection_id: self.connection_id, sql: self.sql },
                        )
                    })
                },
                Err(reply) => {
                    &&& !sessions@.contains_key(self.connection_id@)
                    &&& reply.carries(not_found_tree(self.connection_id@))
                },
            },
    {
        match sessions.get(self.connection_id.as_str()) {
            Some(connection) => Ok((connection, run_query(self.connection_id, self.sql, self.cap))),
            None => Err(not_found(self.connection_id.as_str())),
        }
    }
}

impl Metadata {
    /// Finds the connection, and begins to collect its metadata.
    pub fn attach<'a, C>(self, sessions: &'a Sessions<C>) -> (result: Result<
        (&'a C, TableListing),
        IrodoriConnectorBuffer,
    >)
        ensures
            match result {
                Ok((connection, listing)) => {
                    &&& sessions@.contains_key(self.connection_id@)
                    &&& *connection == sessions@[self.connection_id@]
                    &&& listing.connection_id == self.connection_id
                    &&& listing.sql@ == TABLES_SQL@
                    &&& listing.catalog@ == Seq::<ObjectView>::empty()
                },
                Err(reply) => {
                    &&& !sessions@.contains_key(self.connection_id@)
                    &&& reply.carries(not_found_tree(self.connection_id@))
                },
            },
    {
        match sessions.get(self.connection_id.as_str()) {
            Some(connection) => Ok((connection, load_metadata(self.connection_id))),
            None => Err(not_found(self.connection_id.as_str())),
        }
    }
}

impl Close {
    /// Closes the connection, where there is one.
    pub fn close<C>(self, sessions: &mut Sessions<C>) -> (reply: IrodoriConnectorBuffer)
        ensures
            final(sessions)@ == old(sessions)@.remove(self.connection_id@),
            reply.carries(
                closed_tree(
                    self.connection_id@,
                    old(sessions)@.contains_key(self.connection_id@),
                ),
            ),
    {
        let existed = match sessions.remove(self.connection_id.as_str()) {
            Some(_) => true,
            None => false,
        };
        ok(
            Fields::new().with("connectionId", Json::Str(self.connection_id)).with(
                "closed",
                Json::Bool(existed),
            ),
        )
    }
}

}
