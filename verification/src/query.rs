//! Running SQL: which statements give rows, what a cell looks like in JSON, and how many rows go
//! into a reply.
use crate::abi::{error, error_tree, joined, ok, ok_tree, IrodoriConnectorBuffer};
use crate::json::{items_view, no_fields, number_view, Fields, Json, JsonView};
use crate::text::{lower_starts_with, lowered, trim_front, trim_start};
use vstd::prelude::*;
use vstd::string::*;

verus! {

/// A cell of a row, as the driver reads it. A float comes as the JSON number for it, `None` where
/// there is none (not a number, or infinite); a value of any other type as its debug text.
#[derive(Debug)]
pub enum Cell {
    Null,
    Boolean(bool),
    TinyInt(i8),
    SmallInt(i16),
    Int(i32),
    BigInt(i64),
    UTinyInt(u8),
    USmallInt(u16),
    UInt(u32),
    UBigInt(u64),
    Float(Option<serde_json::Number>),
    Double(Option<serde_json::Number>),
    Text(String),
    Blob(Vec<u8>),
    Other(String),
    Unreadable,
}

/// The hexadecimal digit for `n`, in lower case.
pub open spec fn hex_digit(n: int) -> char {
    if n < 10 {
        ('0' as u32 + n) as char
    } else {
        ('a' as u32 + (n - 10)) as char
    }
}

/// Two digits for each byte, the higher half first.
pub open spec fn hex_of(bytes: Seq<u8>) -> Seq<char> {
    Seq::new(
        2 * bytes.len(),
        |i: int|
            if i % 2 == 0 {
                hex_digit(bytes[i / 2] as int / 16)
            } else {
                hex_digit(bytes[i / 2] as int % 16)
            },
    )
}

/// A float that JSON has no number for is null.
pub open spec fn float_tree(number: Option<serde_json::Number>) -> JsonView {
    match number {
        Some(number) => number_view(number),
        None => JsonView::Null,
    }
}

/// A cell in JSON: numbers as numbers, text as it is, bytes as hexadecimal digits behind `\x`. A
/// cell that cannot be read is null.
pub open spec fn cell_tree(cell: Cell) -> JsonView {
    match cell {
        Cell::Null => JsonView::Null,
        Cell::Boolean(value) => JsonView::Bool(value),
        Cell::TinyInt(value) => JsonView::Int(value as int),
        Cell::SmallInt(value) => JsonView::Int(value as int),
        Cell::Int(value) => JsonView::Int(value as int),
        Cell::BigInt(value) => JsonView::Int(value as int),
        Cell::UTinyInt(value) => JsonView::Int(value as int),
        Cell::USmallInt(value) => JsonView::Int(value as int),
        Cell::UInt(value) => JsonView::Int(value as int),
        Cell::UBigInt(value) => JsonView::Int(value as int),
        Cell::Float(value) => float_tree(value),
        Cell::Double(value) => float_tree(value),
        Cell::Text(value) => JsonView::Str(value@),
        Cell::Blob(value) => JsonView::Str("\\x"@ + hex_of(value@)),
        Cell::Other(value) => JsonView::Str(value@),
        Cell::Unreadable => JsonView::Null,
    }
}

/// The cells of a row in JSON.
pub open spec fn cells_tree(cells: Seq<Cell>) -> Seq<JsonView> {
    cells.map_values(|cell: Cell| cell_tree(cell))
}

/// A row in JSON.
pub open spec fn row_tree(cells: Seq<Cell>) -> JsonView {
    JsonView::Array(cells_tree(cells))
}

/// What a statement that gives rows begins with.
pub open spec fn query_keywords() -> Seq<Seq<char>> {
    seq![
        "select"@,
        "with"@,
        "show"@,
        "pragma"@,
        "explain"@,
        "describe"@,
        "values"@,
        "table"@,
        "call"@,
    ]
}

/// The statement begins with such a word, in whatever case, white space in front aside.
pub open spec fn gives_rows(sql: Seq<char>) -> bool {
    exists|i: int|
        0 <= i < query_keywords().len() && #[trigger] query_keywords()[i].is_prefix_of(
            lowered(trim_front(sql)),
        )
}

/// The digit for a half of a byte.
fn digit_char(n: u8) -> (digit: char)
    requires
        n < 16,
    ensures
        digit == hex_digit(n as int),
{
    if n < 10 {
        (48 + n) as char
    } else {
        (87 + n) as char
    }
}

/// The bytes as hexadecimal digits.
pub fn hex_encode(bytes: &[u8]) -> (output: String)
    ensures
        output@ == hex_of(bytes@),
{
    let mut output = String::new();
    let mut i: usize = 0;
    while i < bytes.len()
        invariant
            i <= bytes@.len(),
            output@ == hex_of(bytes@.take(i as int)),
        decreases bytes@.len() - i,
    {
        let byte = bytes[i];
        output.push(digit_char(byte / 16));
        output.push(digit_char(byte % 16));
        i = i + 1;
        proof {
            let next = hex_of(bytes@.take(i as int));
            assert forall|j: int| 0 <= j < next.len() implies output@[j] == #[trigger] next[j] by {
                assert(bytes@.take(i as int)[j / 2] == bytes@[j / 2]);
                if j / 2 < i - 1 {
                    assert(bytes@.take(i - 1)[j / 2] == bytes@[j / 2]);
                }
            }
            assert(output@ =~= next);
        }
    }
    assert(bytes@.take(i as int) =~= bytes@);
    output
}

/// A float as the JSON number for it.
fn float_json(number: Option<serde_json::Number>) -> (json: Json)
    ensures
        json@ == float_tree(number),
{
    match number {
        Some(number) => Json::Float(number),
        None => Json::Null,
    }
}

/// A cell in JSON.
pub fn cell_to_json(cell: Cell) -> (json: Json)
    ensures
        json@ == cell_tree(cell),
{
    match cell {
        Cell::Null => Json::Null,
        Cell::Boolean(value) => Json::Bool(value),
        Cell::TinyInt(value) => Json::Signed(value as i64),
        Cell::SmallInt(value) => Json::Signed(value as i64),
        Cell::Int(value) => Json::Signed(value as i64),
        Cell::BigInt(value) => Json::Signed(value),
        Cell::UTinyInt(value) => Json::Unsigned(value as u64),
        Cell::USmallInt(value) => Json::Unsigned(value as u64),
        Cell::UInt(value) => Json::Unsigned(value as u64),
        Cell::UBigInt(value) => Json::Unsigned(value),
        Cell::Float(value) => float_json(value),
        Cell::Double(value) => float_json(value),
        Cell::Text(value) => Json::Str(value),
        Cell::Blob(value) => Json::Str(joined("\\x", hex_encode(value.as_slice()).as_str())),
        Cell::Other(value) => Json::Str(value),
        Cell::Unreadable => Json::Null,
    }
}

/// Whether a statement gives rows.
pub fn is_query(sql: &str) -> (rows: bool)
    ensures
        rows == gives_rows(sql@),
{
    let lead = trim_start(sql);
    let ghost words = query_keywords();
    let ghost low = lowered(lead@);
    let found = [
        lower_starts_with(lead, "select"),
        lower_starts_with(lead, "with"),
        lower_starts_with(lead, "show"),
        lower_starts_with(lead, "pragma"),
        lower_starts_with(lead, "explain"),
        lower_starts_with(lead, "describe"),
        lower_starts_with(lead, "values"),
        lower_starts_with(lead, "table"),
        lower_starts_with(lead, "call"),
    ];
    assert(forall|i: int| 0 <= i < words.len() ==> found@[i] == #[trigger] words[i].is_prefix_of(low));
    found[0] || found[1] || found[2] || found[3] || found[4] || found[5] || found[6] || found[7]
        || found[8]
}

/// The cells of a row in JSON.
fn row_to_json(cells: Vec<Cell>) -> (json: Json)
    ensures
        json@ == row_tree(cells@),
{
    let ghost all = cells@;
    let mut items: Vec<Json> = Vec::new();
    for cell in iter: cells
        invariant
            iter.seq() == all,
            items_view(items@) == cells_tree(all.take(iter.index() as int)),
    {
        let ghost before = items@;
        let ghost i = iter.index() as int;
        items.push(cell_to_json(cell));
        proof {
            assert(items@.drop_last() =~= before);
            assert(cells_tree(all.take(i + 1)) =~= cells_tree(all.take(i)).push(cell_tree(all[i])));
        }
    }
    assert(all.take(all.len() as int) =~= all);
    Json::Array(items)
}

/// The names of columns in JSON.
pub open spec fn names_tree(names: Seq<Seq<char>>) -> Seq<JsonView> {
    names.map_values(|name: Seq<char>| JsonView::Str(name))
}

/// The texts of strings.
pub open spec fn texts(strings: Seq<String>) -> Seq<Seq<char>> {
    strings.map_values(|s: String| s@)
}

/// What a result set holds.
pub struct ResultView {
    pub connection_id: Seq<char>,
    pub cap: nat,
    pub columns: Seq<Seq<char>>,
    pub rows: Seq<JsonView>,
}

/// As many rows as the reply may hold.
pub open spec fn is_full(set: ResultView) -> bool {
    set.rows.len() >= set.cap
}

/// A row in JSON that has `width` cells.
pub open spec fn has_width(row: JsonView, width: nat) -> bool {
    row matches JsonView::Array(cells) && cells.len() == width
}

/// No more rows than the reply may hold, and in each row a cell for each column.
pub open spec fn shaped(set: ResultView) -> bool {
    &&& set.rows.len() <= set.cap
    &&& forall|i: int|
        0 <= i < set.rows.len() ==> has_width(#[trigger] set.rows[i], set.columns.len())
}

/// The result set with one more row.
pub open spec fn with_row(set: ResultView, cells: Seq<Cell>) -> ResultView {
    ResultView { rows: set.rows.push(row_tree(cells)), ..set }
}

/// The reply with the rows; `truncated` says that there were more.
pub open spec fn rows_tree(set: ResultView, truncated: bool) -> JsonView {
    ok_tree(
        no_fields().insert("connectionId"@, JsonView::Str(set.connection_id)).insert(
            "columns"@,
            JsonView::Array(names_tree(set.columns)),
        ).insert("rows"@, JsonView::Array(set.rows)).insert("truncated"@, JsonView::Bool(truncated)),
    )
}

/// The reply of a statement that gives no rows.
pub open spec fn executed_tree(connection_id: Seq<char>) -> JsonView {
    rows_tree(
        ResultView { connection_id, cap: 0, columns: Seq::empty(), rows: Seq::empty() },
        false,
    )
}

/// The reply of a statement that the driver could not run.
pub open spec fn query_failed_tree(words: Seq<char>) -> JsonView {
    error_tree("connector.queryFailed"@, "query failed: "@ + words)
}

/// The reply of a statement that the driver could not run.
fn query_failed(words: &str) -> (reply: IrodoriConnectorBuffer)
    ensures
        reply.carries(query_failed_tree(words@)),
{
    error("connector.queryFailed", joined("query failed: ", words))
}

/// What to do with a statement.
#[derive(Debug)]
pub enum Run {
    /// Execute it; it gives no rows.
    Execute(Execution),
    /// Prepare it and fetch its rows.
    Select(Selection),
}

/// A statement that is to be executed.
#[derive(Debug)]
pub struct Execution {
    pub connection_id: String,
    pub sql: String,
}

/// A statement that is to be prepared and run, and whose columns are then to be named.
#[derive(Debug)]
pub struct Selection {
    pub connection_id: String,
    pub sql: String,
    pub cap: usize,
}

/// A running query, with the rows it has given so far: never more than are wanted, and each with a
/// cell for each column.
#[derive(Debug)]
pub struct ResultSet {
    connection_id: String,
    cap: usize,
    columns: Vec<String>,
    rows: Vec<Json>,
}

/// What to do with a row that was fetched.
#[derive(Debug)]
pub enum Fetched {
    /// Read a cell for each column and push them.
    Read(ResultSet),
    /// The reply is full, and this is it.
    Full(IrodoriConnectorBuffer),
}

/// How to run a statement of which at most `cap` rows are wanted.
pub fn run_query(connection_id: String, sql: String, cap: usize) -> (run: Run)
    ensures
        match run {
            Run::Select(selection) => {
                &&& gives_rows(sql@)
                &&& selection == (Selection { connection_id, sql, cap })
            },
            Run::Execute(execution) => {
                &&& !gives_rows(sql@)
                &&& execution == (Execution { connection_id, sql })
            },
        },
{
    if is_query(sql.as_str()) {
        Run::Select(Selection { connection_id, sql, cap })
    } else {
        Run::Execute(Execution { connection_id, sql })
    }
}

/// The names of columns in JSON.
fn names_to_json(names: Vec<String>) -> (json: Json)
    ensures
        json@ == JsonView::Array(names_tree(texts(names@))),
{
    let ghost all = names@;
    let mut items: Vec<Json> = Vec::new();
    for name in iter: names
        invariant
            iter.seq() == all,
            items_view(items@) == names_tree(texts(all.take(iter.index() as int))),
    {
        let ghost before = items@;
        let ghost i = iter.index() as int;
        let item = Json::Str(name);
        assert(item@ == JsonView::Str(all[i]@));
        items.push(item);
        proof {
            assert(items@.drop_last() =~= before);
            assert(names_tree(texts(all.take(i + 1))) =~= names_tree(texts(all.take(i))).push(
                JsonView::Str(all[i]@),
            ));
        }
    }
    assert(all.take(all.len() as int) =~= all);
    Json::Array(items)
}

impl Execution {
    /// The statement was executed.
    pub fn done(self) -> (reply: IrodoriConnectorBuffer)
        ensures
            reply.carries(executed_tree(self.connection_id@)),
    {
        let set = ResultSet {
            connection_id: self.connection_id,
            cap: 0,
            columns: Vec::new(),
            rows: Vec::new(),
        };
        assert(texts(set.columns@) =~= Seq::empty());
        set.reply(false)
    }

    /// The driver could not execute it.
    pub fn failed(self, words: &str) -> (reply: IrodoriConnectorBuffer)
        ensures
            reply.carries(query_failed_tree(words@)),
    {
        query_failed(words)
    }
}

impl Selection {
    /// The query runs and has these columns.
    pub fn opened(self, columns: Vec<String>) -> (set: ResultSet)
        ensures
            set@ == (ResultView {
                connection_id: self.connection_id@,
                cap: self.cap as nat,
                columns: texts(columns@),
                rows: Seq::empty(),
            }),
            shaped(set@),
    {
        ResultSet {
            connection_id: self.connection_id,
            cap: self.cap,
            columns,
            rows: Vec::new(),
        }
    }

    /// The driver could not prepare or run it.
    pub fn failed(self, words: &str) -> (reply: IrodoriConnectorBuffer)
        ensures
            reply.carries(query_failed_tree(words@)),
    {
        query_failed(words)
    }
}

impl View for ResultSet {
    type V = ResultView;

    closed spec fn view(&self) -> ResultView {
        ResultView {
            connection_id: self.connection_id@,
            cap: self.cap as nat,
            columns: texts(self.columns@),
            rows: items_view(self.rows@),
        }
    }
}

/// As many values as items.
proof fn lemma_items_view_len(items: Seq<Json>)
    ensures
        items_view(items).len() == items.len(),
    decreases items.len(),
{
    if items.len() > 0 {
        lemma_items_view_len(items.drop_last());
    }
}

impl ResultSet {
    #[verifier::type_invariant]
    spec fn well_formed(self) -> bool {
        shaped(self@)
    }

    /// The reply with the rows so far.
    fn reply(self, truncated: bool) -> (reply: IrodoriConnectorBuffer)
        ensures
            reply.carries(rows_tree(self@, truncated)),
    {
        ok(
            Fields::new().with("connectionId", Json::Str(self.connection_id)).with(
                "columns",
                names_to_json(self.columns),
            ).with("rows", Json::Array(self.rows)).with("truncated", Json::Bool(truncated)),
        )
    }

    /// A row was fetched.
    pub fn fetched(self) -> (next: Fetched)
        ensures
            shaped(self@),
            match next {
                Fetched::Read(set) => !is_full(self@) && set == self,
                Fetched::Full(reply) => is_full(self@) && reply.carries(rows_tree(self@, true)),
            },
    {
        proof {
            use_type_invariant(&self);
            lemma_items_view_len(self.rows@);
        }
        if self.rows.len() >= self.cap {
            Fetched::Full(self.reply(true))
        } else {
            Fetched::Read(self)
        }
    }

    /// Takes in the cells of the row, one for each column, where there is room for the row.
    pub fn push(self, cells: Vec<Cell>) -> (set: ResultSet)
        requires
            !is_full(self@),
            cells@.len() == self@.columns.len(),
        ensures
            set@ == with_row(self@, cells@),
            shaped(set@),
    {
        proof {
            use_type_invariant(&self);
        }
        let mut rows = self.rows;
        let ghost before = rows@;
        rows.push(row_to_json(cells));
        assert(rows@.drop_last() =~= before);
        ResultSet { connection_id: self.connection_id, cap: self.cap, columns: self.columns, rows }
    }

    /// There are no more rows.
    pub fn finished(self) -> (reply: IrodoriConnectorBuffer)
        ensures
            shaped(self@),
            reply.carries(rows_tree(self@, false)),
    {
        proof {
            use_type_invariant(&self);
        }
        self.reply(false)
    }

    /// The driver could not fetch the next row.
    pub fn failed(self, words: &str) -> (reply: IrodoriConnectorBuffer)
        ensures
            reply.carries(query_failed_tree(words@)),
    {
        query_failed(words)
    }
}

}
