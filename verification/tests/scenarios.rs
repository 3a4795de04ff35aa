//! Whole conversations, with the driver's answers given by the test.
use motherduck_connector::abi::IrodoriConnectorBuffer;
use motherduck_connector::catalog::{
    load_metadata, Catalog, ColumnRow, TableRow, COLUMNS_SQL, TABLES_SQL,
};
use motherduck_connector::connect::{Counted, Opened, Target};
use motherduck_connector::driver::{call_json, Call};
use motherduck_connector::irodori_connector_call_json;
use motherduck_connector::query::{Cell, Fetched, ResultSet, Run, Selection};
use motherduck_connector::sessions::Sessions;
use serde_json::Value;

fn buffer_from_str(value: &str) -> IrodoriConnectorBuffer {
    IrodoriConnectorBuffer {
        ptr: Some(value.as_bytes().to_vec()),
        len: value.len(),
    }
}

fn text_of(buffer: IrodoriConnectorBuffer) -> String {
    let memory = buffer.ptr.unwrap();
    String::from_utf8(memory[..buffer.len].to_vec()).unwrap()
}

fn buffer_to_json(buffer: IrodoriConnectorBuffer) -> Value {
    serde_json::from_str(&text_of(buffer)).unwrap()
}

/// Connects to a database that says its version is `v1`.
fn connected(call: Call, sessions: &mut Sessions<u32>, connection: u32) -> Value {
    let opening = match call {
        Call::Connect(opening) => opening,
        _ => panic!("expected an opening"),
    };
    assert!(matches!(opening.target, Target::InMemory));
    match opening.opened(Some("v1".to_string())) {
        Opened::Register(registration) => {
            buffer_to_json(registration.register(sessions, connection))
        }
        Opened::Seed(_) => panic!("no sample data was asked for"),
    }
}

fn run(call: Call, sessions: &Sessions<u32>) -> Result<(u32, Run), Value> {
    let query = match call {
        Call::Query(query) => query,
        _ => panic!("expected a query"),
    };
    match query.attach(sessions) {
        Ok((connection, run)) => Ok((*connection, run)),
        Err(reply) => Err(buffer_to_json(reply)),
    }
}

fn executed(call: Call, sessions: &Sessions<u32>) -> Value {
    match run(call, sessions) {
        Ok((_, Run::Execute(execution))) => buffer_to_json(execution.done()),
        _ => panic!("expected an execution"),
    }
}

/// Takes in rows as the driver does: each one fetched, then read where there is room.
fn drain(mut set: ResultSet, rows: Vec<Vec<Cell>>) -> Value {
    for cells in rows {
        match set.fetched() {
            Fetched::Full(reply) => return buffer_to_json(reply),
            Fetched::Read(room) => set = room.push(cells),
        }
    }
    buffer_to_json(set.finished())
}

fn table(schema: &str, name: &str, table_type: &str) -> TableRow {
    TableRow {
        schema: schema.to_string(),
        name: name.to_string(),
        table_type: table_type.to_string(),
    }
}

fn column(schema: &str, table: &str, name: &str, nullable: &str, ordinal: i32) -> ColumnRow {
    ColumnRow {
        schema: schema.to_string(),
        table: table.to_string(),
        name: name.to_string(),
        data_type: "INTEGER".to_string(),
        nullable: nullable.to_string(),
        ordinal,
    }
}

#[test]
fn connect_query_metadata_and_close_with_a_scripted_driver() {
    let mut sessions: Sessions<u32> = Sessions::new();
    let ask = |request: &str| irodori_connector_call_json(buffer_from_str(request));
    let reply = connected(
        ask(r#"{"method":"connect","connectionId":"test","database":":memory:"}"#),
        &mut sessions,
        17,
    );
    assert_eq!(reply["ok"], true);
    assert_eq!(reply["driverLinked"], true);
    assert_eq!(reply["serverVersion"], "v1");
    assert_eq!(reply["connectionId"], "test");

    assert_eq!(
        executed(
            ask(
                r#"{"method":"query","connectionId":"test","sql":"create table numbers (n integer, label varchar)"}"#
            ),
            &sessions
        )["ok"],
        true
    );
    assert_eq!(
        executed(
            ask(
                r#"{"method":"query","connectionId":"test","sql":"insert into numbers values (1, 'one'), (2, 'two')"}"#
            ),
            &sessions
        )["ok"],
        true
    );
    let call = ask(
        r#"{"method":"query","connectionId":"test","sql":"select n, label from numbers order by n","maxRows":10}"#,
    );
    let selection = match run(call, &sessions) {
        Ok((17, Run::Select(selection))) => selection,
        _ => panic!("expected a selection"),
    };
    assert_eq!(selection.sql, "select n, label from numbers order by n");
    assert_eq!(selection.cap, 10);
    let result = drain(
        selection.opened(vec!["n".to_string(), "label".to_string()]),
        vec![
            vec![Cell::Int(1), Cell::Text("one".to_string())],
            vec![Cell::Int(2), Cell::Text("two".to_string())],
        ],
    );
    assert_eq!(result["ok"], true);
    assert_eq!(result["columns"].to_string(), r#"["n","label"]"#);
    assert_eq!(result["rows"].to_string(), r#"[[1,"one"],[2,"two"]]"#);
    assert_eq!(result["truncated"], false);

    let metadata = match ask(r#"{"method":"metadata","connectionId":"test"}"#) {
        Call::Metadata(metadata) => metadata,
        _ => panic!("expected metadata"),
    };
    let listing = match metadata.attach(&sessions) {
        Ok((17, listing)) => listing,
        _ => panic!("expected a listing"),
    };
    assert_eq!(listing.sql, TABLES_SQL);
    let listing = listing.table(table("main", "numbers", "BASE TABLE")).finished();
    assert_eq!(listing.sql, COLUMNS_SQL);
    let metadata = buffer_to_json(
        listing
            .column(column("main", "numbers", "n", "YES", 1))
            .finished(),
    );
    assert_eq!(metadata["ok"], true);
    let schemas = metadata["metadata"]["schemas"].as_array().unwrap();
    assert!(schemas.iter().any(|schema| schema["objects"]
        .as_array()
        .unwrap()
        .iter()
        .any(|object| object["name"] == "numbers")));

    let close = match ask(r#"{"method":"close","connectionId":"test"}"#) {
        Call::Close(close) => close,
        _ => panic!("expected a close"),
    };
    assert_eq!(buffer_to_json(close.close(&mut sessions))["closed"], true);
    let close = match ask(r#"{"method":"close","connectionId":" test "}"#) {
        Call::Close(close) => close,
        _ => panic!("expected a close"),
    };
    assert_eq!(buffer_to_json(close.close(&mut sessions))["closed"], false);
    let missing = run(
        ask(r#"{"method":"query","connectionId":"test","sql":"select 1"}"#),
        &sessions,
    )
    .unwrap_err();
    assert_eq!(missing["ok"], false);
    assert_eq!(missing["error"]["code"], "connector.connectionNotFound");
    assert_eq!(missing["error"]["message"], "no open connection: test");
}

#[test]
fn driver_query_reports_driver_errors() {
    let mut sessions: Sessions<u32> = Sessions::new();
    let ask = |request: &str| call_json(buffer_from_str(request));
    let _ = connected(
        ask(r#"{"method":"connect","connectionId":"errors","database":":memory:"}"#),
        &mut sessions,
        1,
    );
    let call =
        ask(r#"{"method":"query","connectionId":"errors","sql":"select * from missing_table"}"#);
    let response = match run(call, &sessions) {
        Ok((_, Run::Select(selection))) => buffer_to_json(selection.failed("no such table")),
        _ => panic!("expected a selection"),
    };
    assert_eq!(response["ok"], false);
    assert_eq!(response["error"]["code"], "connector.queryFailed");
    assert_eq!(response["error"]["message"], "query failed: no such table");
}

#[test]
fn lib_query_reports_driver_errors() {
    let mut sessions: Sessions<u32> = Sessions::new();
    let ask = |request: &str| irodori_connector_call_json(buffer_from_str(request));
    let _ = connected(
        ask(r#"{"method":"connect","connectionId":"errors","database":":memory:"}"#),
        &mut sessions,
        1,
    );
    let call =
        ask(r#"{"method":"query","connectionId":"errors","sql":"select * from missing_table"}"#);
    let response = match run(call, &sessions) {
        Ok((_, Run::Select(selection))) => {
            buffer_to_json(selection.opened(Vec::new()).failed("gone"))
        }
        _ => panic!("expected a selection"),
    };
    assert_eq!(response["ok"], false);
    assert_eq!(response["error"]["code"], "connector.queryFailed");
}

#[test]
fn statements_without_rows_report_failure_too() {
    let mut sessions: Sessions<u32> = Sessions::new();
    let ask = |request: &str| call_json(buffer_from_str(request));
    let _ = connected(
        ask(r#"{"method":"connect","database":":memory:"}"#),
        &mut sessions,
        1,
    );
    let done = executed(ask(r#"{"method":"query","sql":"drop table t"}"#), &sessions);
    assert_eq!(
        done.to_string(),
        r#"{"columns":[],"connectionId":"default","ok":true,"rows":[],"truncated":false}"#
    );
    match run(ask(r#"{"method":"query","sql":"drop table t"}"#), &sessions) {
        Ok((_, Run::Execute(execution))) => {
            let reply = buffer_to_json(execution.failed("locked"));
            assert_eq!(reply["error"]["message"], "query failed: locked");
        }
        _ => panic!("expected an execution"),
    }
}

#[test]
fn a_reply_holds_the_first_rows_and_says_whether_more_came() {
    let opened = |cap: usize| {
        Selection {
            connection_id: "c".to_string(),
            sql: "select".to_string(),
            cap,
        }
        .opened(vec!["n".to_string()])
    };
    let rows = |n: i64| (0..n).map(|i| vec![Cell::BigInt(i)]).collect::<Vec<_>>();
    let cut = drain(opened(2), rows(3));
    assert_eq!(cut["rows"].to_string(), "[[0],[1]]");
    assert_eq!(cut["truncated"], true);
    let whole = drain(opened(2), rows(2));
    assert_eq!(whole["rows"].to_string(), "[[0],[1]]");
    assert_eq!(whole["truncated"], false);
    assert_eq!(drain(opened(2), rows(0))["rows"].to_string(), "[]");
}

#[test]
fn every_row_has_a_cell_for_each_column() {
    for (names, came) in [(3usize, 2i32), (3, 5), (1, 4), (0, 2)] {
        let selection = Selection {
            connection_id: "c".to_string(),
            sql: "select".to_string(),
            cap: 4,
        };
        let columns = (0..names).map(|at| format!("c{at}")).collect();
        let rows = (0..came)
            .map(|row| (0..names).map(|_| Cell::Int(row)).collect())
            .collect();
        let reply = drain(selection.opened(columns), rows);
        assert_eq!(reply["columns"].as_array().unwrap().len(), names);
        let held = reply["rows"].as_array().unwrap();
        assert_eq!(held.len() as i32, came.min(4));
        for row in held {
            assert_eq!(row.as_array().unwrap().len(), names);
        }
        assert_eq!(reply["truncated"], came > 4);
    }
}

#[test]
fn replies_with_floats_are_read_as_json() {
    let floats = [
        0.0,
        -0.0,
        1.5,
        -2.25,
        0.1,
        1e16,
        123456789012345680.0,
        1e-7,
        f64::MAX,
        f64::MIN,
        f64::MIN_POSITIVE,
        5e-324,
    ];
    let selection = Selection {
        connection_id: "c".to_string(),
        sql: "select".to_string(),
        cap: 100,
    };
    let rows = floats
        .iter()
        .map(|float| {
            vec![
                Cell::Text("f".to_string()),
                Cell::Double(serde_json::Number::from_f64(*float)),
            ]
        })
        .collect();
    let reply = drain(
        selection.opened(vec!["label".to_string(), "value".to_string()]),
        rows,
    );
    assert_eq!(reply["ok"], true);
    assert_eq!(reply["connectionId"], "c");
    assert_eq!(reply["truncated"], false);
    let held = reply["rows"].as_array().unwrap();
    assert_eq!(held.len(), floats.len());
    for row in held {
        assert_eq!(row[0], "f");
        assert!(row[1].is_f64());
    }
    assert_eq!(held[2][1], 1.5);
    assert_eq!(held[3][1], -2.25);
}

#[test]
fn connecting_fails_step_by_step() {
    let opening = |request: &str| match call_json(buffer_from_str(request)) {
        Call::Connect(opening) => opening,
        _ => panic!("expected an opening"),
    };
    let reply = buffer_to_json(opening(r#"{"method":"connect"}"#).failed("no file"));
    assert_eq!(reply["error"]["code"], "connector.connectFailed");
    assert_eq!(reply["error"]["message"], "connect failed: no file");

    let sample = r#"{"method":"connect","id":"duckdb-memory"}"#;
    let seeding = || match opening(sample).opened(None) {
        Opened::Seed(seeding) => seeding,
        Opened::Register(_) => panic!("expected the sample data"),
    };
    assert_eq!(
        seeding().schema_sql,
        "create table if not exists customers (id integer, name varchar);"
    );
    assert_eq!(seeding().count_sql, "select count(*) from customers");
    let reply = buffer_to_json(seeding().failed("full"));
    assert_eq!(reply["error"]["code"], "connector.seedFailed");
    assert_eq!(
        reply["error"]["message"],
        "duckdb sample schema failed: full"
    );

    let filling = |count: Option<i64>| match seeding().counted(count) {
        Counted::Fill(filling) => Ok(filling),
        Counted::Register(registration) => Err(registration),
    };
    assert_eq!(
        filling(None).unwrap().data_sql,
        "insert into customers values (1, 'Kawase Foods'), (2, 'Minato Labs');"
    );
    let reply = buffer_to_json(filling(Some(0)).unwrap().failed("full"));
    assert_eq!(reply["error"]["code"], "connector.seedFailed");
    assert_eq!(reply["error"]["message"], "duckdb sample data failed: full");

    let mut sessions: Sessions<u32> = Sessions::new();
    let registration = filling(Some(2)).unwrap_err();
    let reply = text_of(registration.register(&mut sessions, 5));
    assert_eq!(
        reply,
        r#"{"connectionId":"duckdb-memory","driverLinked":true,"engine":"motherduck","ok":true,"serverVersion":"unknown"}"#
    );
    let _ = filling(Some(0)).unwrap().filled().register(&mut sessions, 6);
    assert_eq!(sessions.get("duckdb-memory"), Some(&6));
}

#[test]
fn sessions_hold_one_connection_under_a_name() {
    let mut sessions: Sessions<u32> = Sessions::new();
    assert_eq!(sessions.get("a"), None);
    assert_eq!(sessions.insert("a".to_string(), 1), None);
    assert_eq!(sessions.insert("b".to_string(), 2), None);
    assert_eq!(sessions.insert("a".to_string(), 3), Some(1));
    assert_eq!(sessions.get("a"), Some(&3));
    assert_eq!(sessions.get("b"), Some(&2));
    assert_eq!(sessions.remove("a"), Some(3));
    assert_eq!(sessions.remove("a"), None);
    assert_eq!(sessions.get("b"), Some(&2));
}

#[test]
fn metadata_is_grouped_and_in_order() {
    let listing = load_metadata("c".to_string())
        .table(table("s2", "b", "VIEW"))
        .table(table("s1", "z", "BASE TABLE"))
        .table(table("s2", "a", "view"))
        .table(table("s1", "é", "LOCAL TEMPORARY"))
        .table(table("s1", "Z", "BASE TABLE"))
        .table(table("s2", "b", "BASE TABLE"))
        .finished()
        .column(column("s1", "z", "second", "no", 2))
        .column(column("s1", "z", "first", "yes", 1))
        .column(column("s1", "missing", "x", "YES", 1));
    let reply = text_of(listing.finished());
    assert_eq!(
        reply,
        concat_text(&[
            r#"{"connectionId":"c","metadata":{"schemas":["#,
            r#"{"name":"s1","objects":["#,
            r#"{"columns":[],"kind":"table","name":"Z","schema":"s1"},"#,
            r#"{"columns":["#,
            r#"{"dataType":"INTEGER","name":"second","nullable":false,"ordinal":2},"#,
            r#"{"dataType":"INTEGER","name":"first","nullable":true,"ordinal":1}"#,
            r#"],"kind":"table","name":"z","schema":"s1"},"#,
            r#"{"columns":[],"kind":"table","name":"é","schema":"s1"}"#,
            r#"]},"#,
            r#"{"name":"s2","objects":["#,
            r#"{"columns":[],"kind":"view","name":"a","schema":"s2"},"#,
            r#"{"columns":[],"kind":"table","name":"b","schema":"s2"}"#,
            r#"]}"#,
            r#"]},"ok":true}"#,
        ])
    );
    assert_eq!(
        Catalog::new().into_json().to_text(),
        r#"{"schemas":[]}"#
    );
}

fn concat_text(parts: &[&str]) -> String {
    parts.concat()
}

#[test]
fn metadata_failures_say_which_list_failed() {
    let reply = buffer_to_json(load_metadata("c".to_string()).failed("x"));
    assert_eq!(reply["error"]["code"], "connector.metadataFailed");
    assert_eq!(reply["error"]["message"], "metadata objects failed: x");
    let reply = buffer_to_json(load_metadata("c".to_string()).finished().failed("y"));
    assert_eq!(reply["error"]["code"], "connector.metadataFailed");
    assert_eq!(reply["error"]["message"], "metadata columns failed: y");
    let sessions: Sessions<u32> = Sessions::new();
    match call_json(buffer_from_str(r#"{"method":"metadata"}"#)) {
        Call::Metadata(metadata) => {
            let reply = buffer_to_json(metadata.attach(&sessions).unwrap_err());
            assert_eq!(reply["error"]["message"], "no open connection: default");
        }
        _ => panic!("expected metadata"),
    }
}
