//! What holds of JSON values, and of cells as JSON.
use crate::json::{
    bool_of, entries_view, field, items_view, json_view, node_view, number_int, number_view,
    opt_text, opt_view, str_of, u64_of, Fields, Json, JsonView, Node,
};
use crate::laws::words::{digit_value, is_hex_digit, law_bytes_can_be_read_off_their_digits};
use crate::query::{cell_tree, hex_of, names_tree, row_tree, texts, Cell};
use vstd::prelude::*;

verus! {

/// A field is what was last put under its name; other names keep what they had, a name that was taken
/// out has nothing, and only objects have fields.
pub proof fn law_fields_are_found_by_name(
    fields: Map<Seq<char>, JsonView>,
    name: Seq<char>,
    other: Seq<char>,
    value: JsonView,
)
    ensures
        field(JsonView::Object(fields.insert(name, value)), name) == Some(value),
        other != name ==> field(JsonView::Object(fields.insert(name, value)), other) == field(
            JsonView::Object(fields),
            other,
        ),
        field(JsonView::Object(fields.remove(name)), name) is None,
        field(JsonView::Object(Map::empty()), name) is None,
        !(value is Object) ==> field(value, name) is None,
{
}

/// A string is its text, a boolean its truth value, and an integer itself where a `u64` can hold it;
/// no value of another kind passes for one.
pub proof fn law_values_are_taken_as_they_are(
    tree: JsonView,
    text: Seq<char>,
    truth: bool,
    n: int,
)
    ensures
        str_of(JsonView::Str(text)) == Some(text),
        !(tree is Str) ==> str_of(tree) is None,
        bool_of(JsonView::Bool(truth)) == Some(truth),
        !(tree is Bool) ==> bool_of(tree) is None,
        0 <= n <= u64::MAX ==> u64_of(JsonView::Int(n)) == Some(n as u64),
        !(0 <= n <= u64::MAX) ==> u64_of(JsonView::Int(n)) is None,
        !(tree is Int) ==> u64_of(tree) is None,
{
}

/// The library's trees say what they hold, item by item and field by field.
pub proof fn law_trees_say_what_they_hold(
    truth: bool,
    unsigned: u64,
    signed: i64,
    text: String,
    items: Vec<Json>,
    fields: Fields,
    name: String,
    value: Json,
    words: &str,
)
    ensures
        value@ == json_view(value),
        fields@ == entries_view(fields.entries@),
        json_view(Json::Null) == JsonView::Null,
        json_view(Json::Bool(truth)) == JsonView::Bool(truth),
        json_view(Json::Unsigned(unsigned)) == JsonView::Int(unsigned as int),
        json_view(Json::Signed(signed)) == JsonView::Int(signed as int),
        json_view(Json::Str(text)) == JsonView::Str(text@),
        json_view(Json::Array(items)) == JsonView::Array(items@.map_values(|item: Json| item@)),
        json_view(Json::Object(fields)) == JsonView::Object(entries_view(fields.entries@)),
        entries_view(Seq::empty()) == Map::<Seq<char>, JsonView>::empty(),
        entries_view(fields.entries@.push((name, value))) == entries_view(
            fields.entries@,
        ).insert(name@, value@),
        opt_view(Some(&value)) == Some(value@),
        opt_view(None) is None,
        opt_text(Some(words)) == Some(words@),
        opt_text(None) is None,
{
    lemma_items_are_viewed_one_by_one(items@);
    let more = fields.entries@.push((name, value));
    assert(more.drop_last() =~= fields.entries@);
}

proof fn lemma_items_are_viewed_one_by_one(items: Seq<Json>)
    ensures
        items_view(items) == items.map_values(|item: Json| item@),
    decreases items.len(),
{
    if items.len() > 0 {
        let front = items.drop_last();
        lemma_items_are_viewed_one_by_one(front);
        assert(items.map_values(|item: Json| item@) =~= front.map_values(|item: Json| item@).push(
            items.last()@,
        ));
    } else {
        assert(items_view(items) =~= items.map_values(|item: Json| item@));
    }
}

/// A number is its integer where it holds one, and else a float that is the number itself; the top of
/// a value of `serde_json` says what it holds.
pub proof fn law_numbers_are_integers_or_floats(
    number: serde_json::Number,
    truth: bool,
    text: String,
)
    ensures
        number_int(number) matches Some(n) ==> number_view(number) == JsonView::Int(n),
        number_int(number) is None ==> number_view(number) == JsonView::Float(number),
        json_view(Json::Float(number)) == number_view(number),
        node_view(Node::Number(number)) == number_view(number),
        node_view(Node::Null) == JsonView::Null,
        node_view(Node::Bool(truth)) == JsonView::Bool(truth),
        node_view(Node::Str(text)) == JsonView::Str(text@),
{
}

/// A boolean cell is its truth value, and a cell that is null or cannot be read is null.
pub proof fn law_boolean_cells_keep_their_value(a: bool, b: bool)
    ensures
        cell_tree(Cell::Boolean(a)) == JsonView::Bool(a),
        cell_tree(Cell::Boolean(a)) == cell_tree(Cell::Boolean(b)) ==> a == b,
        cell_tree(Cell::Null) == JsonView::Null,
        cell_tree(Cell::Unreadable) == JsonView::Null,
{
}

/// An integer that fits a width is the same integer in JSON, whichever width its cell has.
pub proof fn law_integer_cells_keep_their_value(n: int)
    ensures
        i8::MIN <= n <= i8::MAX ==> cell_tree(Cell::TinyInt(n as i8)) == JsonView::Int(n),
        i16::MIN <= n <= i16::MAX ==> cell_tree(Cell::SmallInt(n as i16)) == JsonView::Int(n),
        i32::MIN <= n <= i32::MAX ==> cell_tree(Cell::Int(n as i32)) == JsonView::Int(n),
        i64::MIN <= n <= i64::MAX ==> cell_tree(Cell::BigInt(n as i64)) == JsonView::Int(n),
        0 <= n <= u8::MAX ==> cell_tree(Cell::UTinyInt(n as u8)) == JsonView::Int(n),
        0 <= n <= u16::MAX ==> cell_tree(Cell::USmallInt(n as u16)) == JsonView::Int(n),
        0 <= n <= u32::MAX ==> cell_tree(Cell::UInt(n as u32)) == JsonView::Int(n),
        0 <= n <= u64::MAX ==> cell_tree(Cell::UBigInt(n as u64)) == JsonView::Int(n),
{
}

/// A float is the number that the driver gave for it, and null where there is none.
pub proof fn law_float_cells_keep_their_number(number: serde_json::Number)
    ensures
        number_int(number) is None ==> cell_tree(Cell::Float(Some(number))) == JsonView::Float(
            number,
        ),
        number_int(number) matches Some(n) ==> cell_tree(Cell::Float(Some(number)))
            == JsonView::Int(n),
        cell_tree(Cell::Double(Some(number))) == cell_tree(Cell::Float(Some(number))),
        cell_tree(Cell::Float(None)) == JsonView::Null,
        cell_tree(Cell::Double(None)) == JsonView::Null,
{
}

/// A text is itself, and so is the debug text of a value of any other type.
pub proof fn law_text_cells_keep_their_text(text: String)
    ensures
        cell_tree(Cell::Text(text)) == JsonView::Str(text@),
        cell_tree(Cell::Other(text)) == JsonView::Str(text@),
{
}

/// Bytes are a text that begins with `\x` and has two digits for each byte, off which it can be read.
pub proof fn law_blob_cells_keep_their_bytes(bytes: Vec<u8>, i: int)
    ensures
        cell_tree(Cell::Blob(bytes)) matches JsonView::Str(text) && {
            &&& text.len() == 2 + 2 * bytes@.len()
            &&& text[0] == '\\'
            &&& text[1] == 'x'
            &&& 0 <= i < bytes@.len() ==> {
                &&& is_hex_digit(text[2 + 2 * i])
                &&& is_hex_digit(text[3 + 2 * i])
                &&& bytes@[i] == 16 * digit_value(text[2 + 2 * i]) + digit_value(text[3 + 2 * i])
            }
        },
{
    reveal_strlit("\\x");
    let text = "\\x"@ + hex_of(bytes@);
    if 0 <= i < bytes@.len() {
        law_bytes_can_be_read_off_their_digits(bytes@, i);
        assert(text[2 + 2 * i] == hex_of(bytes@)[2 * i]);
        assert(text[3 + 2 * i] == hex_of(bytes@)[2 * i + 1]);
    }
}

/// A row has its cells in their order, each as its JSON.
pub proof fn law_rows_keep_their_cells(cells: Seq<Cell>, i: int)
    ensures
        row_tree(cells) matches JsonView::Array(items) && {
            &&& items.len() == cells.len()
            &&& 0 <= i < cells.len() ==> items[i] == cell_tree(cells[i])
        },
{
}

/// The columns are named in their order, each by its own name.
pub proof fn law_columns_keep_their_names(columns: Seq<String>, i: int)
    ensures
        names_tree(texts(columns)).len() == columns.len(),
        0 <= i < columns.len() ==> names_tree(texts(columns))[i] == JsonView::Str(columns[i]@),
{
}

}
