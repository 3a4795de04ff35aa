//! What holds of the connector as a whole.
use crate::abi::{
    connection_named, error_tree, in_profile, ok_tree, or_else, profile_string, request_in,
    rows_wanted, string_in,
};
use crate::connect::{
    connected_tree, profile_value, seed_wanted, target_in, TargetView,
};
use crate::driver::{
    answers, answers_request, closed_tree, description_tree, health_fields, replies,
    unknown_method_tree, Call,
};
use crate::json::{
    alike, field, fits, lemma_alike_to_plain, no_fields, plain, readable, reads_back, JsonView,
};
use crate::query::{
    cell_tree, cells_tree, executed_tree, gives_rows, has_width, hex_digit, hex_of, is_full,
    names_tree, row_tree, rows_tree, shaped, with_row, Cell, ResultView,
};
use crate::text::{
    blank, lemma_trim_back_takes, lemma_trim_front_skips, lemma_trimmed_is_trimmed, lower_char,
    lowered, trim_back, trim_front, trimmed, white_space,
};
use crate::{ABI_VERSION, ENGINE};
use vstd::prelude::*;

pub mod metadata;
pub mod replies;
pub mod requests;
pub mod steps;
pub mod values;
pub mod words;

verus! {

/// A reply of success says so whatever its payload is, and every other field is the payload's.
pub proof fn law_success_says_ok(payload: Map<Seq<char>, JsonView>, name: Seq<char>)
    ensures
        field(ok_tree(payload), "ok"@) == Some(JsonView::Bool(true)),
        name != "ok"@ ==> field(ok_tree(payload), name) == field(JsonView::Object(payload), name),
{
}

/// A reply of failure says so, and says what went wrong: a code and a message. It can be read back.
pub proof fn law_failure_says_why(code: Seq<char>, message: Seq<char>)
    ensures
        field(error_tree(code, message), "ok"@) == Some(JsonView::Bool(false)),
        field(error_tree(code, message), "error"@) matches Some(error) && {
            &&& field(error, "code"@) == Some(JsonView::Str(code))
            &&& field(error, "message"@) == Some(JsonView::Str(message))
        },
        reads_back(error_tree(code, message)),
{
    reveal_strlit("ok");
    reveal_strlit("error");
    reveal_strlit("code");
    reveal_strlit("message");
    assert("ok"@.len() != "error"@.len());
    assert("code"@.len() != "message"@.len());
    reveal_with_fuel(fits, 4);
}

/// What stands in front of a text that is not blank goes; what stands behind it stays.
proof fn lemma_trim_front_keeps_back(text: Seq<char>, back: Seq<char>)
    requires
        !blank(text),
    ensures
        trim_front(text + back) == trim_front(text) + back,
    decreases text.len(),
{
    let all = text + back;
    if text.len() > 0 {
        assert(all.first() == text.first());
        if white_space(text.first()) {
            let rest = text.drop_first();
            assert(!blank(rest)) by {
                let i = choose|i: int| 0 <= i < text.len() && !white_space(#[trigger] text[i]);
                assert(rest[i - 1] == text[i]);
            }
            assert(all.drop_first() =~= rest + back);
            lemma_trim_front_keeps_back(rest, back);
        }
    }
}

/// White space around a text changes neither what is left of it nor whether it is blank.
pub proof fn law_trimming_ignores_white_space_around(
    front: Seq<char>,
    text: Seq<char>,
    back: Seq<char>,
)
    requires
        blank(front),
        blank(back),
    ensures
        trimmed(front + text + back) == trimmed(text),
        blank(front + text + back) == blank(text),
{
    let all = front + text + back;
    assert forall|i: int| 0 <= i < front.len() implies white_space(#[trigger] all[i]) by {
        assert(all[i] == front[i]);
    }
    lemma_trim_front_skips(all, front.len() as int);
    assert(all.skip(front.len() as int) =~= text + back);
    if blank(text) {
        assert(blank(all)) by {
            assert forall|i: int| 0 <= i < all.len() implies white_space(#[trigger] all[i]) by {
                if i < front.len() {
                    assert(all[i] == front[i]);
                } else if i < front.len() + text.len() {
                    assert(all[i] == text[i - front.len()]);
                } else {
                    assert(all[i] == back[i - front.len() - text.len()]);
                }
            }
        }
        lemma_trimmed_is_trimmed(all);
        lemma_trimmed_is_trimmed(text);
        assert(trimmed(all) =~= trimmed(text));
    } else {
        assert(!blank(all)) by {
            let i = choose|i: int| 0 <= i < text.len() && !white_space(#[trigger] text[i]);
            assert(all[i + front.len()] == text[i]);
        }
        lemma_trim_front_keeps_back(text, back);
        let kept = trim_front(text);
        let both = kept + back;
        assert forall|i: int| kept.len() <= i < both.len() implies white_space(#[trigger] both[i]) by {
            assert(both[i] == back[i - kept.len()]);
        }
        lemma_trim_back_takes(both, kept.len() as int);
        assert(both.take(kept.len() as int) =~= kept);
    }
}

/// White space around a request does not matter.
pub proof fn law_white_space_around_a_request(front: Seq<char>, text: Seq<char>, back: Seq<char>)
    requires
        blank(front),
        blank(back),
    ensures
        request_in(Some(front + text + back)) == request_in(Some(text)),
{
    law_trimming_ignores_white_space_around(front, text, back);
}

/// The name of a connection is never empty and has no white space around it.
pub proof fn law_connection_names_are_trimmed(request: Option<JsonView>)
    ensures
        connection_named(request).len() > 0,
        trimmed(connection_named(request)) == connection_named(request),
        !white_space(connection_named(request).first()),
        !white_space(connection_named(request).last()),
{
    reveal_strlit("default");
    let fallback = "default"@;
    assert(!white_space(fallback.first()));
    assert(!white_space(fallback.last()));
    assert(trim_front(fallback) == fallback);
    assert(trim_back(fallback) == fallback);
    if let Some(tree) = request {
        if let Some(name) = or_else(
            or_else(string_in(tree, "connectionId"@), string_in(tree, "id"@)),
            in_profile(tree, "id"@),
        ) {
            lemma_trimmed_is_trimmed(name);
        }
    }
}

/// Two requests that name a connection alike but for white space around the name mean one
/// connection.
pub proof fn law_white_space_around_a_name(
    a: JsonView,
    b: JsonView,
    front: Seq<char>,
    name: Seq<char>,
    back: Seq<char>,
)
    requires
        blank(front),
        blank(back),
        string_in(a, "connectionId"@) == Some(name),
        string_in(b, "connectionId"@) == Some(front + name + back),
    ensures
        connection_named(Some(a)) == connection_named(Some(b)),
{
    law_trimming_ignores_white_space_around(front, name, back);
}

/// However many rows a request wants, a reply may hold at least one and at most a hundred thousand.
pub proof fn law_rows_wanted_are_bounded(request: JsonView)
    ensures
        1 <= rows_wanted(request) <= 100_000,
{
}

/// Hexadecimal digits tell bytes apart: two for each byte, and different ones for different bytes.
pub proof fn law_hex_tells_bytes_apart(a: Seq<u8>, b: Seq<u8>)
    ensures
        hex_of(a).len() == 2 * a.len(),
        hex_of(a) == hex_of(b) ==> a == b,
{
    if hex_of(a) == hex_of(b) {
        assert(a.len() == b.len());
        assert forall|i: int| 0 <= i < a.len() implies a[i] == b[i] by {
            assert(hex_of(a)[2 * i] == hex_digit(a[i] as int / 16));
            assert(hex_of(b)[2 * i] == hex_digit(b[i] as int / 16));
            assert(hex_of(a)[2 * i + 1] == hex_digit(a[i] as int % 16));
            assert(hex_of(b)[2 * i + 1] == hex_digit(b[i] as int % 16));
            lemma_hex_digit_tells_apart(a[i] as int / 16, b[i] as int / 16);
            lemma_hex_digit_tells_apart(a[i] as int % 16, b[i] as int % 16);
        }
        assert(a =~= b);
    }
}

proof fn lemma_hex_digit_tells_apart(m: int, n: int)
    requires
        0 <= m < 16,
        0 <= n < 16,
        hex_digit(m) == hex_digit(n),
    ensures
        m == n,
{
}

/// Whether a statement gives rows depends neither on the white space in front of it nor on the case
/// of its letters.
pub proof fn law_statement_kind_ignores_case_and_space(front: Seq<char>, sql: Seq<char>)
    requires
        blank(front),
    ensures
        gives_rows(front + sql) == gives_rows(sql),
        gives_rows(lowered(sql)) == gives_rows(sql),
{
    let all = front + sql;
    assert forall|i: int| 0 <= i < front.len() implies white_space(#[trigger] all[i]) by {
        assert(all[i] == front[i]);
    }
    lemma_trim_front_skips(all, front.len() as int);
    assert(all.skip(front.len() as int) =~= sql);
    lemma_trim_front_of_lowered(sql);
    assert(lowered(lowered(trim_front(sql))) =~= lowered(trim_front(sql)));
}

/// Lower case changes no white space.
proof fn lemma_trim_front_of_lowered(s: Seq<char>)
    ensures
        trim_front(lowered(s)) == lowered(trim_front(s)),
    decreases s.len(),
{
    if s.len() > 0 {
        assert(lowered(s).first() == lower_char(s.first()));
        if white_space(s.first()) {
            assert(lowered(s).drop_first() =~= lowered(s.drop_first()));
            lemma_trim_front_of_lowered(s.drop_first());
        }
    }
}

/// A result set that takes in rows as they come, each one fetched and then read where there is room,
/// until there are no more or there is one too many: what it holds then, and whether it was full.
pub open spec fn drained(set: ResultView, arrivals: Seq<Seq<Cell>>) -> (ResultView, bool)
    decreases arrivals.len(),
{
    if arrivals.len() == 0 {
        (set, false)
    } else if is_full(set) {
        (set, true)
    } else {
        drained(with_row(set, arrivals.first()), arrivals.drop_first())
    }
}

/// The rows in JSON.
pub open spec fn arrival_trees(arrivals: Seq<Seq<Cell>>) -> Seq<JsonView> {
    arrivals.map_values(|cells: Seq<Cell>| row_tree(cells))
}

proof fn lemma_drained(set: ResultView, arrivals: Seq<Seq<Cell>>)
    requires
        set.rows.len() <= set.cap,
    ensures
        ({
            let room = (set.cap - set.rows.len()) as int;
            let taken = if arrivals.len() <= room { arrivals } else { arrivals.take(room) };
            drained(set, arrivals) == (
                ResultView { rows: set.rows + arrival_trees(taken), ..set },
                arrivals.len() > room,
            )
        }),
    decreases arrivals.len(),
{
    let room = (set.cap - set.rows.len()) as int;
    let taken = if arrivals.len() <= room { arrivals } else { arrivals.take(room) };
    if arrivals.len() == 0 || is_full(set) {
        assert(set.rows + arrival_trees(taken) =~= set.rows);
    } else {
        let next = with_row(set, arrivals.first());
        let rest = arrivals.drop_first();
        lemma_drained(next, rest);
        let kept = if rest.len() <= room - 1 { rest } else { rest.take(room - 1) };
        assert(taken.drop_first() =~= kept);
        assert(next.rows + arrival_trees(kept) =~= set.rows + arrival_trees(taken));
    }
}

/// A reply holds the first rows that came, in the order in which they came, as many as are wanted,
/// and says that it was cut exactly where more came.
pub proof fn law_a_reply_holds_the_first_rows(set: ResultView, arrivals: Seq<Seq<Cell>>)
    requires
        set.rows.len() == 0,
    ensures
        ({
            let taken = if arrivals.len() <= set.cap {
                arrivals
            } else {
                arrivals.take(set.cap as int)
            };
            drained(set, arrivals) == (
                ResultView { rows: arrival_trees(taken), ..set },
                arrivals.len() > set.cap,
            )
        }),
{
    lemma_drained(set, arrivals);
    let taken = if arrivals.len() <= set.cap { arrivals } else { arrivals.take(set.cap as int) };
    assert(set.rows + arrival_trees(taken) =~= arrival_trees(taken));
}

/// Where every row that came has a cell for each column, so has every row of the reply, and the reply
/// names as many columns.
pub proof fn law_every_row_has_a_cell_for_each_column(set: ResultView, arrivals: Seq<Seq<Cell>>)
    requires
        set.rows.len() == 0,
        forall|i: int|
            0 <= i < arrivals.len() ==> (#[trigger] arrivals[i]).len() == set.columns.len(),
    ensures
        ({
            let (held, cut) = drained(set, arrivals);
            let reply = rows_tree(held, cut);
            &&& shaped(held)
            &&& field(reply, "rows"@) == Some(JsonView::Array(held.rows))
            &&& field(reply, "columns"@) == Some(JsonView::Array(names_tree(set.columns)))
            &&& names_tree(set.columns).len() == set.columns.len()
            &&& forall|i: int|
                0 <= i < held.rows.len() ==> (#[trigger] held.rows[i] is Array
                    && held.rows[i]->Array_0.len() == set.columns.len())
            &&& held.rows.len() <= set.cap
        }),
{
    law_a_reply_holds_the_first_rows(set, arrivals);
    let (held, cut) = drained(set, arrivals);
    assert forall|i: int| 0 <= i < held.rows.len() implies has_width(
        #[trigger] held.rows[i],
        held.columns.len(),
    ) by {
        assert(held.rows[i] == row_tree(arrivals[i]));
    }
    lemma_rows_fields(held, cut);
}

/// A reply with rows tells of success, the connection, its columns, its rows and whether it was cut,
/// and has no other field.
pub proof fn law_rows_replies_have_these_fields(set: ResultView, truncated: bool, name: Seq<char>)
    ensures
        ({
            let reply = rows_tree(set, truncated);
            &&& field(reply, "ok"@) == Some(JsonView::Bool(true))
            &&& field(reply, "connectionId"@) == Some(JsonView::Str(set.connection_id))
            &&& field(reply, "columns"@) == Some(JsonView::Array(names_tree(set.columns)))
            &&& field(reply, "rows"@) == Some(JsonView::Array(set.rows))
            &&& field(reply, "truncated"@) == Some(JsonView::Bool(truncated))
            &&& field(reply, name) is Some ==> name == "ok"@ || name == "connectionId"@ || name
                == "columns"@ || name == "rows"@ || name == "truncated"@
        }),
{
    lemma_rows_fields(set, truncated);
}

/// The fields of a reply with rows.
proof fn lemma_rows_fields(set: ResultView, truncated: bool)
    ensures
        ({
            let reply = rows_tree(set, truncated);
            &&& field(reply, "ok"@) == Some(JsonView::Bool(true))
            &&& field(reply, "connectionId"@) == Some(JsonView::Str(set.connection_id))
            &&& field(reply, "columns"@) == Some(JsonView::Array(names_tree(set.columns)))
            &&& field(reply, "rows"@) == Some(JsonView::Array(set.rows))
            &&& field(reply, "truncated"@) == Some(JsonView::Bool(truncated))
        }),
{
    reveal_strlit("ok");
    reveal_strlit("connectionId");
    reveal_strlit("columns");
    reveal_strlit("rows");
    reveal_strlit("truncated");
    assert("ok"@.len() == 2 && "connectionId"@.len() == 12 && "columns"@.len() == 7);
    assert("rows"@.len() == 4 && "truncated"@.len() == 9);
}

/// A cell that is no float.
pub open spec fn no_float(cell: Cell) -> bool {
    !(cell is Float) && !(cell is Double)
}

/// A field more that fits leaves an object that fits.
pub proof fn lemma_fits_insert(
    fields: Map<Seq<char>, JsonView>,
    name: Seq<char>,
    value: JsonView,
    depth: nat,
    floats: bool,
)
    requires
        depth > 0,
        fits(JsonView::Object(fields), depth, floats),
        fits(value, (depth - 1) as nat, floats),
    ensures
        fits(JsonView::Object(fields.insert(name, value)), depth, floats),
{
    let tree = JsonView::Object(fields);
    assert(fits(tree, depth, floats));
    assert(tree->Object_0 == fields);
    let all = fields.insert(name, value);
    assert forall|n: Seq<char>| all.contains_key(n) implies fits(
        #[trigger] all[n],
        (depth - 1) as nat,
        floats,
    ) by {
        if n != name {
            assert(fields.contains_key(n));
            assert(fits(tree->Object_0[n], (depth - 1) as nat, floats));
        }
    }
}

/// Success can be read back where the payload can.
pub proof fn lemma_ok_reads_back(payload: Map<Seq<char>, JsonView>)
    requires
        reads_back(JsonView::Object(payload)),
    ensures
        reads_back(ok_tree(payload)),
{
    lemma_fits_insert(payload, "ok"@, JsonView::Bool(true), 127, false);
}

/// A reply with rows fits, with floats where a cell of them may be one.
proof fn lemma_rows_fit(
    set: ResultView,
    arrivals: Seq<Seq<Cell>>,
    truncated: bool,
    floats: bool,
)
    requires
        set.rows == arrival_trees(arrivals),
        floats || forall|i: int, j: int|
            0 <= i < arrivals.len() && 0 <= j < arrivals[i].len() ==> no_float(
                #[trigger] arrivals[i][j],
            ),
    ensures
        fits(rows_tree(set, truncated), 127, floats),
{
    assert forall|i: int| 0 <= i < set.rows.len() implies fits(
        #[trigger] set.rows[i],
        125,
        floats,
    ) by {
        assert(set.rows[i] == row_tree(arrivals[i]));
        assert forall|j: int| 0 <= j < arrivals[i].len() implies fits(
            #[trigger] cells_tree(arrivals[i])[j],
            124,
            floats,
        ) by {
            assert(floats || no_float(arrivals[i][j]));
            assert(cells_tree(arrivals[i])[j] == cell_tree(arrivals[i][j]));
        }
    }
    lemma_names_fit(set.columns, 126, floats);
    let id = no_fields().insert("connectionId"@, JsonView::Str(set.connection_id));
    let columns = id.insert("columns"@, JsonView::Array(names_tree(set.columns)));
    let rows = columns.insert("rows"@, JsonView::Array(set.rows));
    let all = rows.insert("truncated"@, JsonView::Bool(truncated));
    lemma_fits_insert(
        no_fields(),
        "connectionId"@,
        JsonView::Str(set.connection_id),
        127,
        floats,
    );
    lemma_fits_insert(id, "columns"@, JsonView::Array(names_tree(set.columns)), 127, floats);
    lemma_fits_insert(columns, "rows"@, JsonView::Array(set.rows), 127, floats);
    lemma_fits_insert(rows, "truncated"@, JsonView::Bool(truncated), 127, floats);
    lemma_fits_insert(all, "ok"@, JsonView::Bool(true), 127, floats);
}

/// The names of columns fit.
proof fn lemma_names_fit(names: Seq<Seq<char>>, depth: nat, floats: bool)
    requires
        depth > 0,
    ensures
        fits(JsonView::Array(names_tree(names)), depth, floats),
{
    assert forall|i: int| 0 <= i < names.len() implies fits(
        #[trigger] names_tree(names)[i],
        (depth - 1) as nat,
        floats,
    ) by {
        assert(names_tree(names)[i] == JsonView::Str(names[i]));
    }
}

/// A reply with rows can be read back where no cell of them is a float.
pub proof fn law_rows_without_floats_read_back(
    set: ResultView,
    arrivals: Seq<Seq<Cell>>,
    truncated: bool,
)
    requires
        set.rows == arrival_trees(arrivals),
        forall|i: int, j: int|
            0 <= i < arrivals.len() && 0 <= j < arrivals[i].len() ==> no_float(
                #[trigger] arrivals[i][j],
            ),
    ensures
        reads_back(rows_tree(set, truncated)),
{
    lemma_rows_fit(set, arrivals, truncated, false);
}

/// Whatever its cells hold, floats too, a reply with rows can be read.
pub proof fn law_rows_are_readable(set: ResultView, arrivals: Seq<Seq<Cell>>, truncated: bool)
    requires
        set.rows == arrival_trees(arrivals),
    ensures
        readable(rows_tree(set, truncated)),
{
    lemma_rows_fit(set, arrivals, truncated, true);
}

/// Under each name, what is read is like what was written.
proof fn lemma_alike_field(read: JsonView, tree: JsonView, name: Seq<char>)
    requires
        alike(read, tree, 127),
        tree is Object,
    ensures
        match field(tree, name) {
            Some(value) => field(read, name) matches Some(found) && alike(found, value, 126),
            None => field(read, name) is None,
        },
{
    let found = read->Object_0;
    let fields = tree->Object_0;
    assert(found.dom() == fields.dom());
    assert(found.contains_key(name) == fields.contains_key(name));
    if fields.contains_key(name) {
        assert(alike(found[name], fields[name], 126));
    }
}

/// Whoever reads a reply with rows reads that it succeeded, on which connection, the columns, whether
/// it was cut and as many rows as it holds; and of each row a cell for each column, a float for a
/// float, and any other cell as it is.
pub proof fn law_reading_rows_keeps_all_but_floats(
    read: JsonView,
    set: ResultView,
    truncated: bool,
    i: int,
    j: int,
)
    requires
        alike(read, rows_tree(set, truncated), 127),
        shaped(set),
    ensures
        field(read, "ok"@) == Some(JsonView::Bool(true)),
        field(read, "connectionId"@) == Some(JsonView::Str(set.connection_id)),
        field(read, "columns"@) == Some(JsonView::Array(names_tree(set.columns))),
        field(read, "truncated"@) == Some(JsonView::Bool(truncated)),
        field(read, "rows"@) matches Some(JsonView::Array(rows)) && {
            &&& rows.len() == set.rows.len()
            &&& 0 <= i < rows.len() ==> (rows[i] matches JsonView::Array(cells) && cells.len()
                == set.columns.len())
            &&& 0 <= i < rows.len() && 0 <= j < set.columns.len() ==> {
                let found = rows[i]->Array_0[j];
                let cell = set.rows[i]->Array_0[j];
                &&& found is Float <==> cell is Float
                &&& plain(cell, 124) ==> found == cell
                &&& !(cell is Float || cell is Array || cell is Object) ==> found == cell
            }
        },
{
    let tree = rows_tree(set, truncated);
    lemma_rows_fields(set, truncated);
    lemma_alike_field(read, tree, "ok"@);
    lemma_alike_field(read, tree, "connectionId"@);
    lemma_alike_field(read, tree, "columns"@);
    lemma_alike_field(read, tree, "truncated"@);
    lemma_alike_field(read, tree, "rows"@);
    let columns = JsonView::Array(names_tree(set.columns));
    lemma_names_fit(set.columns, 126, false);
    lemma_alike_to_plain(field(read, "columns"@)->Some_0, columns, 126);
    let found = field(read, "rows"@)->Some_0;
    let rows = JsonView::Array(set.rows);
    assert(alike(found, rows, 126));
    assert(rows->Array_0 == set.rows);
    if 0 <= i < set.rows.len() {
        assert(alike(found->Array_0[i], rows->Array_0[i], 125));
        assert(has_width(set.rows[i], set.columns.len()));
        if 0 <= j < set.columns.len() {
            assert(alike(found->Array_0[i]->Array_0[j], set.rows[i]->Array_0[j], 124));
            if plain(set.rows[i]->Array_0[j], 124) {
                lemma_alike_to_plain(
                    found->Array_0[i]->Array_0[j],
                    set.rows[i]->Array_0[j],
                    124,
                );
            }
        }
    }
}

/// The connector's health fits.
proof fn lemma_health_fits(floats: bool)
    ensures
        fits(JsonView::Object(health_fields()), 127, floats),
{
    let engine = no_fields().insert("engine"@, JsonView::Str(ENGINE@));
    lemma_fits_insert(no_fields(), "engine"@, JsonView::Str(ENGINE@), 127, floats);
    let abi = engine.insert("abiVersion"@, JsonView::Int(ABI_VERSION as int));
    lemma_fits_insert(engine, "abiVersion"@, JsonView::Int(ABI_VERSION as int), 127, floats);
    lemma_fits_insert(abi, "driverLinked"@, JsonView::Bool(true), 127, floats);
}

/// The replies about health and about connections can be read back.
pub proof fn law_replies_read_back(connection_id: Seq<char>, version: Seq<char>, existed: bool)
    ensures
        reads_back(ok_tree(health_fields())),
        reads_back(connected_tree(connection_id, version)),
        reads_back(executed_tree(connection_id)),
        reads_back(closed_tree(connection_id, existed)),
{
    lemma_health_fits(false);
    lemma_ok_reads_back(health_fields());

    let engine = no_fields().insert("engine"@, JsonView::Str(ENGINE@));
    lemma_fits_insert(no_fields(), "engine"@, JsonView::Str(ENGINE@), 127, false);
    let name = engine.insert("connectionId"@, JsonView::Str(connection_id));
    lemma_fits_insert(engine, "connectionId"@, JsonView::Str(connection_id), 127, false);
    let server = name.insert("serverVersion"@, JsonView::Str(version));
    lemma_fits_insert(name, "serverVersion"@, JsonView::Str(version), 127, false);
    lemma_fits_insert(server, "driverLinked"@, JsonView::Bool(true), 127, false);
    lemma_ok_reads_back(server.insert("driverLinked"@, JsonView::Bool(true)));

    let id = no_fields().insert("connectionId"@, JsonView::Str(connection_id));
    lemma_fits_insert(no_fields(), "connectionId"@, JsonView::Str(connection_id), 127, false);
    lemma_fits_insert(id, "closed"@, JsonView::Bool(existed), 127, false);
    lemma_ok_reads_back(id.insert("closed"@, JsonView::Bool(existed)));

    let none = ResultView {
        connection_id,
        cap: 0,
        columns: Seq::empty(),
        rows: Seq::empty(),
    };
    assert(none.rows =~= arrival_trees(Seq::empty()));
    law_rows_without_floats_read_back(none, Seq::empty(), false);
}

/// The description can be read where its documents are no deeper than the parser goes below it, and
/// is read back where they hold no float.
pub proof fn law_description_reads_back(manifest: JsonView, config: JsonView)
    requires
        fits(manifest, 126, true),
        fits(config, 126, true),
    ensures
        readable(description_tree(manifest, config)),
        plain(manifest, 126) && plain(config, 126) ==> reads_back(
            description_tree(manifest, config),
        ),
{
    lemma_description_fits(manifest, config, true);
    if plain(manifest, 126) && plain(config, 126) {
        lemma_description_fits(manifest, config, false);
    }
}

/// The description fits where its documents fit below it.
proof fn lemma_description_fits(manifest: JsonView, config: JsonView, floats: bool)
    requires
        fits(manifest, 126, floats),
        fits(config, 126, floats),
    ensures
        fits(description_tree(manifest, config), 127, floats),
{
    let one = health_fields().insert("manifest"@, manifest);
    let both = one.insert("config"@, config);
    lemma_health_fits(floats);
    lemma_fits_insert(health_fields(), "manifest"@, manifest, 127, floats);
    lemma_fits_insert(one, "config"@, config, 127, floats);
    lemma_fits_insert(both, "ok"@, JsonView::Bool(true), 127, floats);
}

/// A blank request asks for the connector's health, as one for the method `health` or `ping` does.
pub proof fn law_blank_requests_ask_for_health(text: Seq<char>, call: Call, tree: JsonView)
    requires
        blank(text),
    ensures
        request_in(Some(text)) == Ok::<Option<JsonView>, JsonView>(None),
        answers_request(call, None) <==> replies(call, ok_tree(health_fields())),
        answers(call, "health"@, tree) <==> replies(call, ok_tree(health_fields())),
        answers(call, "ping"@, tree) <==> replies(call, ok_tree(health_fields())),
{
}

/// The methods that the connector knows.
pub open spec fn known_methods() -> Seq<Seq<char>> {
    seq![
        "health"@,
        "ping"@,
        "describe"@,
        "capabilities"@,
        "manifest"@,
        "config"@,
        "connect"@,
        "query"@,
        "metadata"@,
        "close"@,
    ]
}

/// A method that the connector does not know is refused by its name.
pub proof fn law_unknown_methods_are_refused(call: Call, method: Seq<char>, tree: JsonView)
    requires
        !known_methods().contains(method),
    ensures
        answers(call, method, tree) <==> replies(call, unknown_method_tree(method)),
{
    let known = known_methods();
    assert(known[0] == "health"@ && known[1] == "ping"@ && known[2] == "describe"@);
    assert(known[3] == "capabilities"@ && known[4] == "manifest"@ && known[5] == "config"@);
    assert(known[6] == "connect"@ && known[7] == "query"@ && known[8] == "metadata"@);
    assert(known[9] == "close"@);
}

/// A connection that was registered is the one found under its name, and no other connection is
/// touched; once it is closed it is not found, closing it said that it was there, and closing it
/// again says that it was not.
pub proof fn law_a_connection_lives_from_connect_to_close<C>(
    open: Map<Seq<char>, C>,
    name: Seq<char>,
    connection: C,
    other: Seq<char>,
)
    ensures
        ({
            let connected = open.insert(name, connection);
            let closed = connected.remove(name);
            &&& connected.contains_key(name)
            &&& connected[name] == connection
            &&& !closed.contains_key(name)
            &&& closed_tree(name, connected.contains_key(name)) == closed_tree(name, true)
            &&& closed_tree(name, closed.contains_key(name)) == closed_tree(name, false)
            &&& other != name ==> {
                &&& connected.contains_key(other) == open.contains_key(other)
                &&& closed.contains_key(other) == open.contains_key(other)
                &&& open.contains_key(other) ==> connected[other] == open[other] && closed[other]
                    == open[other]
            }
        }),
{
}

/// A path to open is never empty, has no white space around it and is not `:memory:`.
pub proof fn law_paths_are_trimmed(tree: JsonView)
    ensures
        target_in(tree) matches TargetView::Path(path) ==> {
            &&& path.len() > 0
            &&& trimmed(path) == path
            &&& path != ":memory:"@
        },
{
    if let Some(text) = or_else(profile_string(tree, "database"@), profile_string(tree, "url"@)) {
        lemma_trimmed_is_trimmed(text);
    }
}

/// What a request itself says about the sample data counts before what its profile says, and both
/// before the name of the connection.
pub proof fn law_the_request_decides_on_the_sample(
    tree: JsonView,
    connection_id: Seq<char>,
    flag: bool,
)
    ensures
        field(tree, "seedSample"@) == Some(JsonView::Bool(flag)) ==> seed_wanted(
            tree,
            connection_id,
        ) == flag,
        field(tree, "seedSample"@) is None && profile_value(tree, "seedSample"@) == Some(
            JsonView::Bool(flag),
        ) ==> seed_wanted(tree, connection_id) == flag,
        field(tree, "seedSample"@) is None && profile_value(tree, "seedSample"@) is None
            ==> seed_wanted(tree, connection_id) == (connection_id == "duckdb-memory"@
            || connection_id == "motherduck-memory"@),
{
}

}
