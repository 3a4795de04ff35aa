//! Opening a connection: what to open, whether to put the sample data in, and the reply.
use crate::abi::{
    connection_id, connection_named, error, error_tree, joined, ok, ok_tree, or_else, profile_field,
    profile_string, IrodoriConnectorBuffer,
};
use crate::json::{bool_of, field, no_fields, Fields, Json, JsonView};
use crate::sessions::Sessions;
use crate::text::{same, trim, trimmed};
use crate::ENGINE;
use vstd::prelude::*;
use vstd::string::*;

verus! {

/// Asks the database for its version.
pub const VERSION_SQL: &'static str = "select version()";

/// Makes the sample table, where there is none.
pub const SAMPLE_SCHEMA_SQL: &'static str = "create table if not exists customers (id integer, name varchar);";

/// Counts what is in the sample table.
pub const SAMPLE_COUNT_SQL: &'static str = "select count(*) from customers";

/// Fills the sample table.
pub const SAMPLE_DATA_SQL: &'static str = "insert into customers values (1, 'Kawase Foods'), (2, 'Minato Labs');";

/// What to open.
#[derive(Debug)]
pub enum Target {
    InMemory,
    Path(String),
}

/// What a `Target` says.
pub enum TargetView {
    InMemory,
    Path(Seq<char>),
}

impl View for Target {
    type V = TargetView;

    open spec fn view(&self) -> TargetView {
        match self {
            Target::InMemory => TargetView::InMemory,
            Target::Path(path) => TargetView::Path(path@),
        }
    }
}

/// The database that a request names as `database` or else as `url`, without white space around
/// it; a database in memory where it names none or `:memory:`.
pub open spec fn target_in(tree: JsonView) -> TargetView {
    match or_else(profile_string(tree, "database"@), profile_string(tree, "url"@)) {
        None => TargetView::InMemory,
        Some(text) => if trimmed(text) == ""@ || trimmed(text) == ":memory:"@ {
            TargetView::InMemory
        } else {
            TargetView::Path(trimmed(text))
        },
    }
}

/// The field `name` of the request's `profile`.
pub open spec fn profile_value(tree: JsonView, name: Seq<char>) -> Option<JsonView> {
    match field(tree, "profile"@) {
        Some(profile) => field(profile, name),
        None => None,
    }
}

/// The connections that get the sample data unasked.
pub open spec fn is_sample_connection(connection_id: Seq<char>) -> bool {
    connection_id == "duckdb-memory"@ || connection_id == "motherduck-memory"@
}

/// Whether a connection gets the sample data: as `seedSample` says in the request, or else in its
/// profile; where what it found is no truth value, by the connection's name.
pub open spec fn seed_wanted(tree: JsonView, connection_id: Seq<char>) -> bool {
    let flag = match or_else(
        field(tree, "seedSample"@),
        profile_value(tree, "seedSample"@),
    ) {
        Some(value) => bool_of(value),
        None => None,
    };
    match flag {
        Some(flag) => flag,
        None => is_sample_connection(connection_id),
    }
}

/// The reply to a connection that is open.
pub open spec fn connected_tree(connection_id: Seq<char>, server_version: Seq<char>) -> JsonView {
    ok_tree(
        no_fields().insert("engine"@, JsonView::Str(ENGINE@)).insert(
            "connectionId"@,
            JsonView::Str(connection_id),
        ).insert("serverVersion"@, JsonView::Str(server_version)).insert(
            "driverLinked"@,
            JsonView::Bool(true),
        ),
    )
}

/// The reply where the driver could not open the database.
pub open spec fn connect_failed_tree(words: Seq<char>) -> JsonView {
    error_tree("connector.connectFailed"@, "connect failed: "@ + words)
}

/// The reply where the sample table could not be made.
pub open spec fn schema_failed_tree(words: Seq<char>) -> JsonView {
    error_tree("connector.seedFailed"@, "duckdb sample schema failed: "@ + words)
}

/// The reply where the sample table could not be filled.
pub open spec fn data_failed_tree(words: Seq<char>) -> JsonView {
    error_tree("connector.seedFailed"@, "duckdb sample data failed: "@ + words)
}

/// The reply where the table of connections was left in disorder.
pub open spec fn poisoned_tree() -> JsonView {
    error_tree("connector.statePoisoned"@, "Connector connection state is poisoned."@)
}

/// The database version that the driver told, or that it told none.
pub open spec fn version_text(version: Option<String>) -> Seq<char> {
    match version {
        Some(version) => version@,
        None => "unknown"@,
    }
}

/// The database `target` is to be opened, and asked for its version with `version_sql`.
#[derive(Debug)]
pub struct Opening {
    pub connection_id: String,
    pub target: Target,
    pub version_sql: &'static str,
    pub seed: bool,
}

/// The database is open.
#[derive(Debug)]
pub enum Opened {
    /// Make the sample table, and count what is in it.
    Seed(Seeding),
    /// Put the connection among the others.
    Register(Registration),
}

/// The sample table is to be made with `schema_sql`, and what is in it counted with `count_sql`.
#[derive(Debug)]
pub struct Seeding {
    pub connection_id: String,
    pub server_version: String,
    pub schema_sql: &'static str,
    pub count_sql: &'static str,
}

/// What the sample table holds is known.
#[derive(Debug)]
pub enum Counted {
    /// Fill it.
    Fill(Filling),
    /// Put the connection among the others.
    Register(Registration),
}

/// The sample table is to be filled with `data_sql`.
#[derive(Debug)]
pub struct Filling {
    pub connection_id: String,
    pub server_version: String,
    pub data_sql: &'static str,
}

/// The connection is ready to stand among the others.
#[derive(Debug)]
pub struct Registration {
    pub connection_id: String,
    pub server_version: String,
}

/// What a request to connect wants.
pub fn connect(request: &Json) -> (opening: Opening)
    ensures
        opening.connection_id@ == connection_named(Some(request@)),
        opening.target@ == target_in(request@),
        opening.version_sql@ == VERSION_SQL@,
        opening.seed == seed_wanted(request@, connection_named(Some(request@))),
{
    let id = connection_id(Some(request));
    let database = match profile_field(request, "database") {
        Some(text) => Some(text),
        None => profile_field(request, "url"),
    };
    let target = match database {
        None => Target::InMemory,
        Some(text) => {
            let path = trim(text);
            if same(path, "") || same(path, ":memory:") {
                Target::InMemory
            } else {
                Target::Path(path.to_owned())
            }
        },
    };
    let seed = should_seed_sample(request, id.as_str());
    Opening { connection_id: id, target, version_sql: VERSION_SQL, seed }
}

/// Whether the connection of this name gets the sample data.
pub fn should_seed_sample(request: &Json, connection_id: &str) -> (seed: bool)
    ensures
        seed == seed_wanted(request@, connection_id@),
{
    let found = match request.get("seedSample") {
        Some(value) => Some(value),
        None => match request.get("profile") {
            Some(profile) => profile.get("seedSample"),
            None => None,
        },
    };
    let flag = match found {
        Some(value) => value.as_bool(),
        None => None,
    };
    match flag {
        Some(flag) => flag,
        None => same(connection_id, "duckdb-memory") || same(connection_id, "motherduck-memory"),
    }
}

/// The reply where the table of connections was left in disorder.
pub fn state_poisoned() -> (reply: IrodoriConnectorBuffer)
    ensures
        reply.carries(poisoned_tree()),
{
    error("connector.statePoisoned", "Connector connection state is poisoned.".to_owned())
}

impl Opening {
    /// The driver could not open the database.
    pub fn failed(self, words: &str) -> (reply: IrodoriConnectorBuffer)
        ensures
            reply.carries(connect_failed_tree(words@)),
    {
        error("connector.connectFailed", joined("connect failed: ", words))
    }

    /// The database is open; `version` is what it says to `version_sql`.
    pub fn opened(self, version: Option<String>) -> (next: Opened)
        ensures
            match next {
                Opened::Seed(seeding) => {
                    &&& self.seed
                    &&& seeding.connection_id == self.connection_id
                    &&& seeding.server_version@ == version_text(version)
                    &&& seeding.schema_sql@ == SAMPLE_SCHEMA_SQL@
                    &&& seeding.count_sql@ == SAMPLE_COUNT_SQL@
                },
                Opened::Register(registration) => {
                    &&& !self.seed
                    &&& registration.connection_id == self.connection_id
                    &&& registration.server_version@ == version_text(version)
                },
            },
    {
        let server_version = match version {
            Some(version) => version,
            None => "unknown".to_owned(),
        };
        if self.seed {
            Opened::Seed(
                Seeding {
                    connection_id: self.connection_id,
                    server_version,
                    schema_sql: SAMPLE_SCHEMA_SQL,
                    count_sql: SAMPLE_COUNT_SQL,
                },
            )
        } else {
            Opened::Register(Registration { connection_id: self.connection_id, server_version })
        }
    }
}

impl Seeding {
    /// The driver could not make the sample table.
    pub fn failed(self, words: &str) -> (reply: IrodoriConnectorBuffer)
        ensures
            reply.carries(schema_failed_tree(words@)),
    {
        error("connector.seedFailed", joined("duckdb sample schema failed: ", words))
    }

    /// The sample table is there; `count` is what the database says to `count_sql`. A table
    /// that cannot be counted passes for an empty one.
    pub fn counted(self, count: Option<i64>) -> (next: Counted)
        ensures
            match next {
                Counted::Fill(filling) => {
                    &&& count is None || count == Some(0i64)
                    &&& filling.connection_id == self.connection_id
                    &&& filling.server_version == self.server_version
                    &&& filling.data_sql@ == SAMPLE_DATA_SQL@
                },
                Counted::Register(registration) => {
                    &&& count is Some && count != Some(0i64)
                    &&& registration.connection_id == self.connection_id
                    &&& registration.server_version == self.server_version
                },
            },
    {
        let existing: i64 = match count {
            Some(count) => count,
            None => 0,
        };
        if existing == 0 {
            Counted::Fill(
                Filling {
                    connection_id: self.connection_id,
                    server_version: self.server_version,
                    data_sql: SAMPLE_DATA_SQL,
                },
            )
        } else {
            Counted::Register(
                Registration {
                    connection_id: self.connection_id,
                    server_version: self.server_version,
                },
            )
        }
    }
}

impl Filling {
    /// The driver could not fill the sample table.
    pub fn failed(self, words: &str) -> (reply: IrodoriConnectorBuffer)
        ensures
            reply.carries(data_failed_tree(words@)),
    {
        error("connector.seedFailed", joined("duckdb sample data failed: ", words))
    }

    /// The sample table is full.
    pub fn filled(self) -> (registration: Registration)
        ensures
            registration.connection_id == self.connection_id,
            registration.server_version == self.server_version,
    {
        Registration { connection_id: self.connection_id, server_version: self.server_version }
    }
}

impl Registration {
    /// Puts the connection among the others. One that had its name is closed.
    pub fn register<C>(self, sessions: &mut Sessions<C>, connection: C) -> (reply:
        IrodoriConnectorBuffer)
        ensures
            final(sessions)@ == old(sessions)@.insert(self.connection_id@, connection),
            reply.carries(connected_tree(self.connection_id@, self.server_version@)),
    {
        let _ = sessions.insert(self.connection_id.clone(), connection);
        ok(
            Fields::new().with("engine", Json::Str(ENGINE.to_owned())).with(
                "connectionId",
                Json::Str(self.connection_id),
            ).with("serverVersion", Json::Str(self.server_version)).with(
                "driverLinked",
                Json::Bool(true),
            ),
        )
    }
}

}
