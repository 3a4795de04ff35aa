//! What holds of requests: what they name, and what they come to.
use crate::abi::{
    connection_named, in_profile, method_in, profile_string, request_in, rows_wanted, string_in,
};
use crate::catalog::{COLUMNS_SQL, TABLES_SQL};
use crate::connect::{
    profile_value, seed_wanted, target_in, version_text, Target, TargetView, SAMPLE_COUNT_SQL,
    SAMPLE_DATA_SQL, SAMPLE_SCHEMA_SQL, VERSION_SQL,
};
use crate::documents::{CONFIG_JSON, MANIFEST_JSON};
use crate::driver::{answers, answers_request, document_tree, Call};
use crate::json::{field, json_parse, JsonView};
use crate::laws::replies::{
    describes, law_description_replies, law_failures_are_told, law_health_replies,
    lemma_error_refuses, refuses, tells_failure, tells_health,
};
use crate::laws::{known_methods, law_unknown_methods_are_refused};
use crate::text::{blank, lemma_trimmed_is_trimmed, trimmed};
use crate::{ABI_VERSION, ENGINE};
use vstd::prelude::*;

verus! {

/// The field `name` is `text`, and not blank.
pub open spec fn names(tree: JsonView, name: Seq<char>, text: Seq<char>) -> bool {
    field(tree, name) == Some(JsonView::Str(text)) && !blank(text)
}

/// The field `name` is not there, is no string, or is blank.
pub open spec fn lacks(tree: JsonView, name: Seq<char>) -> bool {
    field(tree, name) matches Some(JsonView::Str(text)) ==> blank(text)
}

/// The field `name` of the profile is `text`, and not blank.
pub open spec fn profile_names(tree: JsonView, name: Seq<char>, text: Seq<char>) -> bool {
    field(tree, "profile"@) matches Some(profile) && names(profile, name, text)
}

/// There is no profile, or it lacks the field `name`.
pub open spec fn profile_lacks(tree: JsonView, name: Seq<char>) -> bool {
    field(tree, "profile"@) matches Some(profile) ==> lacks(profile, name)
}

/// A field counts where it is a string that is not blank, and then it is that string as it stands; a
/// field of the request counts before the profile's.
pub proof fn law_text_fields_count_where_they_are_not_blank(
    tree: JsonView,
    name: Seq<char>,
    text: Seq<char>,
)
    ensures
        string_in(tree, name) == Some(text) <==> names(tree, name, text),
        string_in(tree, name) is None <==> lacks(tree, name),
        in_profile(tree, name) == Some(text) <==> profile_names(tree, name, text),
        in_profile(tree, name) is None <==> profile_lacks(tree, name),
        profile_string(tree, name) == Some(text) <==> names(tree, name, text) || (lacks(tree, name)
            && profile_names(tree, name, text)),
        profile_string(tree, name) is None <==> lacks(tree, name) && profile_lacks(tree, name),
        method_in(Some(tree)) == Some(text) <==> names(tree, "method"@, text),
        method_in(Some(tree)) is None <==> lacks(tree, "method"@),
        method_in(None) == Some("health"@),
{
}

/// A connection is named by `connectionId`, where that counts for nothing by `id`, then by the
/// profile's `id`, each without the white space around it; and else it is `default`.
pub proof fn law_connections_are_named_in_order(tree: JsonView, text: Seq<char>)
    ensures
        names(tree, "connectionId"@, text) ==> connection_named(Some(tree)) == trimmed(text),
        lacks(tree, "connectionId"@) && names(tree, "id"@, text) ==> connection_named(Some(tree))
            == trimmed(text),
        lacks(tree, "connectionId"@) && lacks(tree, "id"@) && profile_names(tree, "id"@, text)
            ==> connection_named(Some(tree)) == trimmed(text),
        lacks(tree, "connectionId"@) && lacks(tree, "id"@) && profile_lacks(tree, "id"@)
            ==> connection_named(Some(tree)) == "default"@,
        connection_named(None) == "default"@,
{
}

/// `rows` honours a limit of `n` rows: it is `n` between 1 and 100000, the nearer of the two for a
/// natural number outside, and 10000 where `n` is not one that a request can mean.
pub open spec fn honours(rows: int, n: int) -> bool {
    &&& 1 <= n <= 100_000 ==> rows == n
    &&& n == 0 ==> rows == 1
    &&& 100_000 < n <= u64::MAX ==> rows == 100_000
    &&& n < 0 || n > u64::MAX ==> rows == 10_000
}

/// A query gets as many rows as `maxRows` says, where there is none as `limit` says, and 10000 where
/// there is neither or what is there is no integer.
pub proof fn law_row_limits_are_honoured(tree: JsonView, n: int)
    ensures
        field(tree, "maxRows"@) == Some(JsonView::Int(n)) ==> honours(rows_wanted(tree), n),
        field(tree, "maxRows"@) is None && field(tree, "limit"@) == Some(JsonView::Int(n))
            ==> honours(rows_wanted(tree), n),
        field(tree, "maxRows"@) matches Some(value) && !(value is Int) ==> rows_wanted(tree)
            == 10_000,
        field(tree, "maxRows"@) is None && (field(tree, "limit"@) matches Some(value) && !(
        value is Int)) ==> rows_wanted(tree) == 10_000,
        field(tree, "maxRows"@) is None && field(tree, "limit"@) is None ==> rows_wanted(tree)
            == 10_000,
{
}

/// The request names the database `text`: as `database`, where that counts for nothing in the request
/// and its profile as `url`; each in the request before the profile.
pub open spec fn names_database(tree: JsonView, text: Seq<char>) -> bool {
    ||| names(tree, "database"@, text)
    ||| lacks(tree, "database"@) && profile_names(tree, "database"@, text)
    ||| lacks(tree, "database"@) && profile_lacks(tree, "database"@) && names(tree, "url"@, text)
    ||| lacks(tree, "database"@) && profile_lacks(tree, "database"@) && lacks(tree, "url"@)
        && profile_names(tree, "url"@, text)
}

/// The request names no database.
pub open spec fn names_no_database(tree: JsonView) -> bool {
    &&& lacks(tree, "database"@)
    &&& profile_lacks(tree, "database"@)
    &&& lacks(tree, "url"@)
    &&& profile_lacks(tree, "url"@)
}

/// A database that a request names is opened, without the white space around its name; a database in
/// memory is opened where it names none, or names `:memory:`, and nowhere else.
pub proof fn law_connecting_opens_what_is_named(tree: JsonView, text: Seq<char>)
    ensures
        names_database(tree, text) && trimmed(text) != ":memory:"@ ==> target_in(tree)
            == TargetView::Path(trimmed(text)),
        names_database(tree, text) && trimmed(text) == ":memory:"@ ==> target_in(tree)
            == TargetView::InMemory,
        names_no_database(tree) ==> target_in(tree) == TargetView::InMemory,
        names_database(tree, text) ==> !names_no_database(tree),
        !names_no_database(tree) ==> exists|named: Seq<char>| #[trigger] names_database(tree, named),
{
    reveal_strlit("");
    assert(""@.len() == 0);
    lemma_trimmed_is_trimmed(text);
    law_text_fields_count_where_they_are_not_blank(tree, "database"@, text);
    law_text_fields_count_where_they_are_not_blank(tree, "url"@, text);
    if !names_no_database(tree) {
        let database = profile_string(tree, "database"@);
        let url = profile_string(tree, "url"@);
        law_text_fields_count_where_they_are_not_blank(tree, "database"@, database->Some_0);
        law_text_fields_count_where_they_are_not_blank(tree, "url"@, url->Some_0);
        if database is Some {
            assert(names_database(tree, database->Some_0));
        } else {
            assert(names_database(tree, url->Some_0));
        }
    }
}

/// `seedSample` decides on the sample data, the request's before the profile's; where there is none,
/// or it is no truth value, exactly the connections `duckdb-memory` and `motherduck-memory` get it.
pub proof fn law_sample_data_goes_where_it_is_wanted(
    tree: JsonView,
    profile: JsonView,
    connection_id: Seq<char>,
    flag: bool,
)
    ensures
        field(tree, "seedSample"@) == Some(JsonView::Bool(flag)) ==> seed_wanted(
            tree,
            connection_id,
        ) == flag,
        field(tree, "seedSample"@) matches Some(value) && !(value is Bool) ==> seed_wanted(
            tree,
            connection_id,
        ) == (connection_id == "duckdb-memory"@ || connection_id == "motherduck-memory"@),
        field(tree, "seedSample"@) is None && field(tree, "profile"@) == Some(profile) ==> {
            &&& field(profile, "seedSample"@) == Some(JsonView::Bool(flag)) ==> seed_wanted(
                tree,
                connection_id,
            ) == flag
            &&& !(field(profile, "seedSample"@) matches Some(JsonView::Bool(_))) ==> seed_wanted(
                tree,
                connection_id,
            ) == (connection_id == "duckdb-memory"@ || connection_id == "motherduck-memory"@)
        },
        field(tree, "seedSample"@) is None && field(tree, "profile"@) is None ==> seed_wanted(
            tree,
            connection_id,
        ) == (connection_id == "duckdb-memory"@ || connection_id == "motherduck-memory"@),
        field(tree, "profile"@) == Some(profile) ==> profile_value(tree, "seedSample"@) == field(
            profile,
            "seedSample"@,
        ),
{
}

/// What is to be opened is the path that it says, or a database in memory.
pub proof fn law_targets_are_what_they_say(path: String)
    ensures
        Target::Path(path)@ == TargetView::Path(path@),
        Target::InMemory@ == TargetView::InMemory,
{
}

/// The version is what the database told, and `unknown` where it told none.
pub proof fn law_versions_are_told(version: String)
    ensures
        version_text(Some(version)) == version@,
        version_text(None) == "unknown"@,
{
}

/// The connector speaks version 1 of the ABI for the engine `motherduck`, and these are the
/// statements that it has the driver run on its own account.
pub proof fn law_the_connector_asks_these_statements()
    ensures
        ABI_VERSION == 1,
        ENGINE@ == "motherduck"@,
        VERSION_SQL@ == "select version()"@,
        SAMPLE_SCHEMA_SQL@
            == "create table if not exists customers (id integer, name varchar);"@,
        SAMPLE_COUNT_SQL@ == "select count(*) from customers"@,
        SAMPLE_DATA_SQL@
            == "insert into customers values (1, 'Kawase Foods'), (2, 'Minato Labs');"@,
        TABLES_SQL@
            == "select table_schema, table_name, table_type from information_schema.tables where table_schema not in ('information_schema', 'pg_catalog') order by table_schema, table_name"@,
        COLUMNS_SQL@
            == "select table_schema, table_name, column_name, data_type, is_nullable, ordinal_position from information_schema.columns where table_schema not in ('information_schema', 'pg_catalog') order by table_schema, table_name, ordinal_position"@,
{
}

/// A buffer is read as JSON without the white space around its text. Nothing is asked where there is
/// nothing else; what is no JSON is refused with the parser's words, and what is no text is refused.
pub proof fn law_requests_are_read_as_json(text: Seq<char>, tree: JsonView, words: Seq<char>)
    ensures
        blank(text) ==> request_in(Some(text)) == Ok::<Option<JsonView>, JsonView>(None),
        !blank(text) && json_parse(trimmed(text)) == Ok::<JsonView, Seq<char>>(tree) ==> request_in(
            Some(text),
        ) == Ok::<Option<JsonView>, JsonView>(Some(tree)),
        !blank(text) && json_parse(trimmed(text)) == Err::<JsonView, Seq<char>>(words) ==> (
        request_in(Some(text)) matches Err(reply) && refuses(
            reply,
            "connector.invalidJson"@,
            "Connector request must be valid JSON: "@ + words,
        )),
        request_in(None) matches Err(reply) && refuses(
            reply,
            "connector.invalidRequest"@,
            "Connector request buffer must be empty or valid UTF-8 JSON."@,
        ),
{
    lemma_error_refuses(
        "connector.invalidJson"@,
        "Connector request must be valid JSON: "@ + words,
    );
    lemma_error_refuses(
        "connector.invalidRequest"@,
        "Connector request buffer must be empty or valid UTF-8 JSON."@,
    );
}

/// Each method comes to a call of its own, about the connection that the request names.
pub proof fn law_each_method_comes_to_its_call(call: Call, tree: JsonView)
    ensures
        answers(call, "health"@, tree) ==> tells_health(call),
        answers(call, "ping"@, tree) ==> tells_health(call),
        answers(call, "describe"@, tree) ==> describes(call),
        answers(call, "capabilities"@, tree) ==> describes(call),
        answers(call, "manifest"@, tree) <==> (call matches Call::Reply(reply) && reply.holds(
            MANIFEST_JSON@,
        )),
        answers(call, "config"@, tree) <==> (call matches Call::Reply(reply) && reply.holds(
            CONFIG_JSON@,
        )),
        answers(call, "connect"@, tree) <==> (call matches Call::Connect(opening) && {
            &&& opening.connection_id@ == connection_named(Some(tree))
            &&& opening.target@ == target_in(tree)
            &&& opening.version_sql@ == "select version()"@
            &&& opening.seed == seed_wanted(tree, connection_named(Some(tree)))
        }),
        answers(call, "metadata"@, tree) <==> (call matches Call::Metadata(metadata)
            && metadata.connection_id@ == connection_named(Some(tree))),
        answers(call, "close"@, tree) <==> (call matches Call::Close(close)
            && close.connection_id@ == connection_named(Some(tree))),
{
    lemma_methods_differ();
    if answers(call, "health"@, tree) || answers(call, "ping"@, tree) {
        law_health_replies(call);
    }
    if answers(call, "describe"@, tree) || answers(call, "capabilities"@, tree) {
        law_description_replies(call);
    }
}

/// A query is run as it stands on the connection that the request names, with its limit; one without
/// a statement is refused.
pub proof fn law_queries_come_to_their_statement(call: Call, tree: JsonView, sql: Seq<char>)
    ensures
        names(tree, "sql"@, sql) ==> (answers(call, "query"@, tree) <==> (
        call matches Call::Query(query) && {
            &&& query.connection_id@ == connection_named(Some(tree))
            &&& query.sql@ == sql
            &&& query.cap == rows_wanted(tree)
        })),
        lacks(tree, "sql"@) && answers(call, "query"@, tree) ==> (call matches Call::Reply(reply)
            && tells_failure(
            reply,
            "connector.invalidRequest"@,
            "query requires a string sql field."@,
        )),
{
    lemma_methods_differ();
    if lacks(tree, "sql"@) {
        if let Call::Reply(reply) = call {
            law_failures_are_told(reply, sql);
        }
    }
}

/// A request comes to what its method comes to; without a method it is refused, and an unknown
/// method is refused by its name.
pub proof fn law_requests_come_to_their_method(call: Call, tree: JsonView, method: Seq<char>)
    ensures
        names(tree, "method"@, method) ==> (answers_request(call, Some(tree)) <==> answers(
            call,
            method,
            tree,
        )),
        lacks(tree, "method"@) && answers_request(call, Some(tree)) ==> (
        call matches Call::Reply(reply) && tells_failure(
            reply,
            "connector.invalidRequest"@,
            "Connector request needs a string method."@,
        )),
        !known_methods().contains(method) && answers(call, method, tree) ==> (
        call matches Call::Reply(reply) && tells_failure(
            reply,
            "connector.unknownMethod"@,
            "unknown connector method: "@ + method,
        )),
        answers_request(call, None) ==> tells_health(call),
{
    if answers_request(call, None) {
        law_health_replies(call);
    }
    if let Call::Reply(reply) = call {
        law_failures_are_told(reply, method);
    }
    if !known_methods().contains(method) {
        law_unknown_methods_are_refused(call, method, tree);
    }
}

/// A document is what is read of its text, and null where that is no JSON.
pub proof fn law_documents_are_read(tree: JsonView, words: Seq<char>)
    ensures
        document_tree(Ok(tree)) == tree,
        document_tree(Err(words)) == JsonView::Null,
{
}

/// The methods are ten different words.
proof fn lemma_methods_differ()
    ensures
        "health"@.len() == 6 && "health"@[0] == 'h',
        "ping"@.len() == 4,
        "describe"@.len() == 8 && "describe"@[0] == 'd',
        "capabilities"@.len() == 12,
        "manifest"@.len() == 8 && "manifest"@[0] == 'm' && "manifest"@[1] == 'a',
        "config"@.len() == 6 && "config"@[0] == 'c',
        "connect"@.len() == 7,
        "query"@.len() == 5 && "query"@[0] == 'q',
        "metadata"@.len() == 8 && "metadata"@[0] == 'm' && "metadata"@[1] == 'e',
        "close"@.len() == 5 && "close"@[0] == 'c',
{
    reveal_strlit("health");
    reveal_strlit("ping");
    reveal_strlit("describe");
    reveal_strlit("capabilities");
    reveal_strlit("manifest");
    reveal_strlit("config");
    reveal_strlit("connect");
    reveal_strlit("query");
    reveal_strlit("metadata");
    reveal_strlit("close");
}

}
