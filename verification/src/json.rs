//! JSON values: the library's own tree, and the way from and to text through `serde_json`.
use crate::text::same;
use vstd::prelude::*;

verus! {

/// A value of `serde_json`.
#[verifier::external_type_specification]
#[verifier::external_body]
pub struct ExValue(serde_json::Value);

/// A number of `serde_json`.
#[verifier::external_type_specification]
#[verifier::external_body]
pub struct ExNumber(serde_json::Number);

/// The fields of an object of `serde_json`.
#[verifier::external_type_specification]
#[verifier::external_body]
#[verifier::reject_recursive_types(K)]
#[verifier::reject_recursive_types(V)]
pub struct ExMap<K, V>(serde_json::Map<K, V>);

/// What a JSON value is: the fields of an object have no order.
pub enum JsonView {
    Null,
    Bool(bool),
    Int(int),
    Float(serde_json::Number),
    Str(Seq<char>),
    Array(Seq<JsonView>),
    Object(Map<Seq<char>, JsonView>),
}

/// A JSON value.
#[derive(Debug)]
pub enum Json {
    Null,
    Bool(bool),
    Unsigned(u64),
    Signed(i64),
    Float(serde_json::Number),
    Str(String),
    Array(Vec<Json>),
    Object(Fields),
}

/// The fields of an object. Of two fields with one name the later one counts.
#[derive(Debug)]
pub struct Fields {
    pub entries: Vec<(String, Json)>,
}

/// The integer that a number of `serde_json` holds; `None` for one that it holds as a float.
pub uninterp spec fn number_int(number: serde_json::Number) -> Option<int>;

/// What a value of `serde_json` holds.
pub uninterp spec fn value_view(value: serde_json::Value) -> JsonView;

/// What a map of `serde_json` holds.
pub uninterp spec fn map_view(map: serde_json::Map<String, serde_json::Value>) -> Map<Seq<char>, JsonView>;

/// What `serde_json::from_str` makes of a text: the value, or the words of the error.
pub uninterp spec fn json_parse(text: Seq<char>) -> Result<JsonView, Seq<char>>;

/// The compact text that `serde_json` writes for a value.
pub uninterp spec fn json_text(tree: JsonView) -> Seq<char>;

/// An object without a field.
pub open spec fn no_fields() -> Map<Seq<char>, JsonView> {
    Map::empty()
}

/// What a number is: an integer, or a float.
pub open spec fn number_view(number: serde_json::Number) -> JsonView {
    match number_int(number) {
        Some(n) => JsonView::Int(n),
        None => JsonView::Float(number),
    }
}

/// What a tree is.
pub open spec fn json_view(json: Json) -> JsonView
    decreases json,
{
    match json {
        Json::Null => JsonView::Null,
        Json::Bool(b) => JsonView::Bool(b),
        Json::Unsigned(n) => JsonView::Int(n as int),
        Json::Signed(n) => JsonView::Int(n as int),
        Json::Float(n) => number_view(n),
        Json::Str(s) => JsonView::Str(s@),
        Json::Array(items) => JsonView::Array(items_view(items@)),
        Json::Object(fields) => JsonView::Object(entries_view(fields.entries@)),
    }
}

/// What the items of an array are.
pub open spec fn items_view(items: Seq<Json>) -> Seq<JsonView>
    decreases items,
{
    if items.len() == 0 {
        Seq::empty()
    } else {
        items_view(items.drop_last()).push(json_view(items.last()))
    }
}

/// What the fields of an object are.
pub open spec fn entries_view(entries: Seq<(String, Json)>) -> Map<Seq<char>, JsonView>
    decreases entries,
{
    if entries.len() == 0 {
        Map::empty()
    } else {
        entries_view(entries.drop_last()).insert(entries.last().0@, json_view(entries.last().1))
    }
}

impl View for Json {
    type V = JsonView;

    open spec fn view(&self) -> JsonView {
        json_view(*self)
    }
}

impl View for Fields {
    type V = Map<Seq<char>, JsonView>;

    open spec fn view(&self) -> Map<Seq<char>, JsonView> {
        entries_view(self.entries@)
    }
}

/// The top of a value: what it is, with the values inside still as `serde_json` holds them.
pub enum Node {
    Null,
    Bool(bool),
    Number(serde_json::Number),
    Str(String),
    Array(Vec<serde_json::Value>),
    Object(serde_json::Map<String, serde_json::Value>),
}

/// What a value is, by its top.
pub open spec fn node_view(node: Node) -> JsonView {
    match node {
        Node::Null => JsonView::Null,
        Node::Bool(b) => JsonView::Bool(b),
        Node::Number(n) => number_view(n),
        Node::Str(s) => JsonView::Str(s@),
        Node::Array(items) => JsonView::Array(values_view(items@)),
        Node::Object(map) => JsonView::Object(map_view(map)),
    }
}

/// What a list of names and values holds, of two values under one name the later one.
pub open spec fn pairs_view(pairs: Seq<(String, serde_json::Value)>) -> Map<Seq<char>, JsonView>
    decreases pairs.len(),
{
    if pairs.len() == 0 {
        Map::empty()
    } else {
        pairs_view(pairs.drop_last()).insert(pairs.last().0@, value_view(pairs.last().1))
    }
}

/// Nothing in it nested deeper than `depth` levels, and no float but where `floats` says so.
pub open spec fn fits(tree: JsonView, depth: nat, floats: bool) -> bool
    decreases depth,
{
    match tree {
        JsonView::Float(_) => floats,
        JsonView::Array(items) => depth > 0 && forall|i: int|
            0 <= i < items.len() ==> fits(#[trigger] items[i], (depth - 1) as nat, floats),
        JsonView::Object(fields) => depth > 0 && forall|name: Seq<char>|
            fields.contains_key(name) ==> fits(#[trigger] fields[name], (depth - 1) as nat, floats),
        _ => true,
    }
}

/// Nothing nested deeper than `depth` levels, and no float.
pub open spec fn plain(tree: JsonView, depth: nat) -> bool {
    fits(tree, depth, false)
}

/// The same value as `tree`, nested no deeper than `depth` levels, but that a float may stand in the
/// place of another.
pub open spec fn alike(read: JsonView, tree: JsonView, depth: nat) -> bool
    decreases depth,
{
    match (read, tree) {
        (JsonView::Float(_), JsonView::Float(_)) => true,
        (JsonView::Array(found), JsonView::Array(items)) => {
            &&& depth > 0
            &&& found.len() == items.len()
            &&& forall|i: int|
                0 <= i < items.len() ==> alike(found[i], #[trigger] items[i], (depth - 1) as nat)
        },
        (JsonView::Object(found), JsonView::Object(fields)) => {
            &&& depth > 0
            &&& found.dom() == fields.dom()
            &&& forall|name: Seq<char>|
                fields.contains_key(name) ==> alike(
                    found[name],
                    #[trigger] fields[name],
                    (depth - 1) as nat,
                )
        },
        _ => read == tree,
    }
}

/// `serde_json` reads what it wrote: nested no deeper than its parser goes.
pub open spec fn readable(tree: JsonView) -> bool {
    fits(tree, 127, true)
}

/// `serde_json` reads `text` as `tree`, but for the values of floats, which reading may round.
pub open spec fn reads_alike(text: Seq<char>, tree: JsonView) -> bool {
    json_parse(text) matches Ok(read) && alike(read, tree, 127)
}

/// `serde_json` reads back what it wrote: it holds no float, which reading may round, and it is
/// nested no deeper than its parser goes.
pub open spec fn reads_back(tree: JsonView) -> bool {
    plain(tree, 127)
}

/// `serde_json` reads `text` as `tree`.
pub open spec fn reads_as(text: Seq<char>, tree: JsonView) -> bool {
    json_parse(text) == Ok::<JsonView, Seq<char>>(tree)
}

/// What holds no float fits where floats may stand, and no other value is like it.
pub proof fn lemma_alike_to_plain(read: JsonView, tree: JsonView, depth: nat)
    requires
        plain(tree, depth),
    ensures
        fits(tree, depth, true),
        alike(read, tree, depth) ==> read == tree,
    decreases depth,
{
    match tree {
        JsonView::Array(items) => {
            let below = (depth - 1) as nat;
            assert forall|i: int| 0 <= i < items.len() implies fits(
                #[trigger] items[i],
                below,
                true,
            ) by {
                lemma_alike_to_plain(items[i], items[i], below);
            }
            if alike(read, tree, depth) {
                let found = read->Array_0;
                assert forall|i: int| 0 <= i < items.len() implies found[i] == items[i] by {
                    assert(alike(found[i], items[i], below));
                    lemma_alike_to_plain(found[i], items[i], below);
                }
                assert(found =~= items);
            }
        },
        JsonView::Object(fields) => {
            let below = (depth - 1) as nat;
            assert forall|name: Seq<char>| fields.contains_key(name) implies fits(
                #[trigger] fields[name],
                below,
                true,
            ) by {
                lemma_alike_to_plain(fields[name], fields[name], below);
            }
            if alike(read, tree, depth) {
                let found = read->Object_0;
                assert forall|name: Seq<char>| fields.contains_key(name) implies found[name]
                    == fields[name] by {
                    assert(alike(found[name], fields[name], below));
                    lemma_alike_to_plain(found[name], fields[name], below);
                }
                assert(found =~= fields);
            }
        },
        _ => {},
    }
}

/// No two fields have one name.
pub open spec fn distinct_names(pairs: Seq<(String, serde_json::Value)>) -> bool {
    forall|i: int, j: int|
        0 <= i < j < pairs.len() ==> (#[trigger] pairs[i]).0@ != (#[trigger] pairs[j]).0@
}

/// `serde_json::from_str` into a `serde_json::Value`, its error as the words that the error
/// displays. The result depends on the text alone.
#[verifier::external_body]
fn value_from_str(text: &str) -> (result: Result<serde_json::Value, String>)
    ensures
        match result {
            Ok(value) => json_parse(text@) == Ok::<JsonView, Seq<char>>(value_view(value)),
            Err(words) => json_parse(text@) == Err::<JsonView, Seq<char>>(words@),
        },
{
    serde_json::from_str::<serde_json::Value>(text).map_err(|error| error.to_string())
}

/// `serde_json::Value::to_string`: the compact text of a value. It depends on what the value
/// holds alone, since an object writes its fields in the order of their names. Where the value is
/// nested no deeper than the parser goes, the parser reads it back, and a float as a float: a finite
/// one is written with a point or an exponent. Which float it reads is left unsaid: the parser
/// multiplies the digits by a power of ten and may be off in the last place.
#[verifier::external_body]
fn value_to_string(value: &serde_json::Value) -> (text: String)
    ensures
        text@ == json_text(value_view(*value)),
        readable(value_view(*value)) ==> reads_alike(text@, value_view(*value)),
{
    value.to_string()
}

/// Takes a `serde_json::Value` apart by its variants.
#[verifier::external_body]
fn value_node(value: serde_json::Value) -> (node: Node)
    ensures
        node_view(node) == value_view(value),
{
    match value {
        serde_json::Value::Null => Node::Null,
        serde_json::Value::Bool(b) => Node::Bool(b),
        serde_json::Value::Number(n) => Node::Number(n),
        serde_json::Value::String(s) => Node::Str(s),
        serde_json::Value::Array(items) => Node::Array(items),
        serde_json::Value::Object(map) => Node::Object(map),
    }
}

/// Makes a `serde_json::Value` of the variant that `node` names.
#[verifier::external_body]
fn node_value(node: Node) -> (value: serde_json::Value)
    ensures
        value_view(value) == node_view(node),
{
    match node {
        Node::Null => serde_json::Value::Null,
        Node::Bool(b) => serde_json::Value::Bool(b),
        Node::Number(n) => serde_json::Value::Number(n),
        Node::Str(s) => serde_json::Value::String(s),
        Node::Array(items) => serde_json::Value::Array(items),
        Node::Object(map) => serde_json::Value::Object(map),
    }
}

/// `serde_json::Map::new`: a map without a field.
#[verifier::external_body]
fn map_new() -> (map: serde_json::Map<String, serde_json::Value>)
    ensures
        map_view(map) == no_fields(),
{
    serde_json::Map::new()
}

/// `serde_json::Map::insert`: puts a value under a name, in the place of one that was there.
#[verifier::external_body]
fn map_insert(
    map: &mut serde_json::Map<String, serde_json::Value>,
    name: String,
    value: serde_json::Value,
)
    ensures
        map_view(*final(map)) == map_view(*old(map)).insert(name@, value_view(value)),
{
    map.insert(name, value);
}

/// `serde_json::Map::into_iter`: every field of the map, once.
#[verifier::external_body]
fn map_pairs(map: serde_json::Map<String, serde_json::Value>) -> (pairs: Vec<
    (String, serde_json::Value),
>)
    ensures
        pairs_view(pairs@) == map_view(map),
        distinct_names(pairs@),
{
    map.into_iter().collect()
}

/// `serde_json::Number::as_u64`: the integer of a number that holds one of at least zero.
#[verifier::external_body]
fn number_as_u64(number: &serde_json::Number) -> (n: Option<u64>)
    ensures
        n matches Some(m) ==> number_int(*number) == Some(m as int),
        n is None ==> (number_int(*number) matches Some(m) ==> m < 0),
{
    number.as_u64()
}

/// `serde_json::Number::as_i64`: the integer of a number that holds one of at most `i64::MAX`.
#[verifier::external_body]
fn number_as_i64(number: &serde_json::Number) -> (n: Option<i64>)
    ensures
        n matches Some(m) ==> number_int(*number) == Some(m as int),
        n is None ==> (number_int(*number) matches Some(m) ==> m > i64::MAX),
{
    number.as_i64()
}

/// `serde_json::Number::from` of a `u64`.
#[verifier::external_body]
fn number_from_u64(n: u64) -> (number: serde_json::Number)
    ensures
        number_int(number) == Some(n as int),
{
    serde_json::Number::from(n)
}

/// `serde_json::Number::from` of an `i64`.
#[verifier::external_body]
fn number_from_i64(n: i64) -> (number: serde_json::Number)
    ensures
        number_int(number) == Some(n as int),
{
    serde_json::Number::from(n)
}

/// A number as a tree of the library.
fn number_json(number: serde_json::Number) -> (json: Json)
    ensures
        json@ == number_view(number),
{
    match number_as_u64(&number) {
        Some(n) => Json::Unsigned(n),
        None => match number_as_i64(&number) {
            Some(n) => Json::Signed(n),
            None => Json::Float(number),
        },
    }
}

/// What a list of values holds.
pub open spec fn values_view(values: Seq<serde_json::Value>) -> Seq<JsonView> {
    values.map_values(|value: serde_json::Value| value_view(value))
}

/// A list without two fields of one name holds each of its values.
proof fn lemma_pairs_view_holds(pairs: Seq<(String, serde_json::Value)>, i: int)
    requires
        distinct_names(pairs),
        0 <= i < pairs.len(),
    ensures
        pairs_view(pairs).dom().finite(),
        pairs_view(pairs).contains_key(pairs[i].0@),
        pairs_view(pairs)[pairs[i].0@] == value_view(pairs[i].1),
    decreases pairs.len(),
{
    let front = pairs.drop_last();
    if front.len() > 0 {
        lemma_pairs_view_holds(front, if i < front.len() { i } else { 0 });
    } else {
        assert(pairs_view(front) == no_fields());
    }
}

/// The library's tree of a value of `serde_json`.
fn from_value(value: serde_json::Value) -> (json: Json)
    ensures
        json@ == value_view(value),
    decreases value_view(value),
{
    let node = value_node(value);
    match node {
        Node::Null => Json::Null,
        Node::Bool(b) => Json::Bool(b),
        Node::Number(n) => number_json(n),
        Node::Str(s) => Json::Str(s),
        Node::Array(items) => {
            let ghost all = items@;
            let mut found: Vec<Json> = Vec::new();
            for item in iter: items
                invariant
                    iter.seq() == all,
                    value_view(value) == JsonView::Array(values_view(all)),
                    items_view(found@) == values_view(all.take(iter.index() as int)),
            {
                proof {
                    let i = iter.index() as int;
                    assert(values_view(all)[i] == value_view(item));
                    assert(decreases_to!(value_view(value) => value_view(value)->Array_0));
                    assert(decreases_to!(values_view(all) => values_view(all)[i]));
                    assert(values_view(all.take(i + 1)) =~= values_view(all.take(i)).push(
                        value_view(item),
                    ));
                }
                let ghost before = found@;
                found.push(from_value(item));
                assert(found@.drop_last() =~= before);
            }
            assert(all.take(all.len() as int) =~= all);
            Json::Array(found)
        },
        Node::Object(map) => {
            let pairs = map_pairs(map);
            let ghost all = pairs@;
            let mut fields = Fields { entries: Vec::new() };
            for pair in iter: pairs
                invariant
                    iter.seq() == all,
                    distinct_names(all),
                    value_view(value) == JsonView::Object(pairs_view(all)),
                    fields@ == pairs_view(all.take(iter.index() as int)),
            {
                let (name, inner) = pair;
                proof {
                    let i = iter.index() as int;
                    lemma_pairs_view_holds(all, i);
                    assert(decreases_to!(value_view(value) => value_view(value)->Object_0));
                    assert(decreases_to!(pairs_view(all) => pairs_view(all)[name@]));
                    assert(all.take(i + 1).drop_last() =~= all.take(i));
                }
                fields.put(name, from_value(inner));
            }
            assert(all.take(all.len() as int) =~= all);
            Json::Object(fields)
        },
    }
}

/// The value of `serde_json` for a tree of the library.
fn to_value(json: Json) -> (value: serde_json::Value)
    ensures
        value_view(value) == json@,
    decreases json,
{
    match json {
        Json::Null => node_value(Node::Null),
        Json::Bool(b) => node_value(Node::Bool(b)),
        Json::Unsigned(n) => node_value(Node::Number(number_from_u64(n))),
        Json::Signed(n) => node_value(Node::Number(number_from_i64(n))),
        Json::Float(n) => node_value(Node::Number(n)),
        Json::Str(s) => node_value(Node::Str(s)),
        Json::Array(items) => {
            let ghost all = items@;
            let mut values: Vec<serde_json::Value> = Vec::new();
            for item in iter: items
                invariant
                    iter.seq() == all,
                    json == Json::Array(items),
                    items@ == all,
                    values_view(values@) == items_view(all.take(iter.index() as int)),
            {
                proof {
                    let i = iter.index() as int;
                    assert(all.take(i + 1).drop_last() =~= all.take(i));
                    assert(decreases_to!(json => json->Array_0));
                    assert(decreases_to!(items => items@));
                    assert(decreases_to!(all => all[i]));
                }
                let ghost before = values@;
                let value = to_value(item);
                values.push(value);
                assert(values_view(values@) =~= values_view(before).push(value_view(value)));
            }
            assert(all.take(all.len() as int) =~= all);
            node_value(Node::Array(values))
        },
        Json::Object(fields) => {
            let ghost all = fields.entries@;
            let mut map = map_new();
            for entry in iter: fields.entries
                invariant
                    iter.seq() == all,
                    json == Json::Object(fields),
                    fields.entries@ == all,
                    map_view(map) == entries_view(all.take(iter.index() as int)),
            {
                let (name, inner) = entry;
                proof {
                    let i = iter.index() as int;
                    assert(all.take(i + 1).drop_last() =~= all.take(i));
                    assert(decreases_to!(json => json->Object_0));
                    assert(decreases_to!(fields => fields.entries));
                    assert(decreases_to!(fields.entries => fields.entries@));
                    assert(decreases_to!(all => all[i]));
                    assert(decreases_to!(entry => entry.1));
                }
                map_insert(&mut map, name, to_value(inner));
            }
            assert(all.take(all.len() as int) =~= all);
            node_value(Node::Object(map))
        },
    }
}

impl Fields {
    /// No field yet.
    pub fn new() -> (fields: Self)
        ensures
            fields@ == no_fields(),
    {
        Fields { entries: Vec::new() }
    }

    /// Puts a value under a name, in the place of one that was there.
    pub fn put(&mut self, name: String, value: Json)
        ensures
            final(self)@ == old(self)@.insert(name@, value@),
    {
        let ghost before = self.entries@;
        self.entries.push((name, value));
        assert(self.entries@.drop_last() =~= before);
    }

    /// The fields with one more.
    pub fn with(self, name: &str, value: Json) -> (fields: Self)
        ensures
            fields@ == self@.insert(name@, value@),
    {
        let mut fields = self;
        fields.put(name.to_owned(), value);
        fields
    }
}

/// The field `name` of an object; nothing of any other value.
pub open spec fn field(tree: JsonView, name: Seq<char>) -> Option<JsonView> {
    match tree {
        JsonView::Object(fields) => if fields.contains_key(name) {
            Some(fields[name])
        } else {
            None
        },
        _ => None,
    }
}

/// The tree that a reference points to, where there is one.
pub open spec fn opt_view(json: Option<&Json>) -> Option<JsonView> {
    match json {
        Some(json) => Some(json@),
        None => None,
    }
}

/// The text that a reference points to, where there is one.
pub open spec fn opt_text(text: Option<&str>) -> Option<Seq<char>> {
    match text {
        Some(text) => Some(text@),
        None => None,
    }
}

/// The text of a string value.
pub open spec fn str_of(tree: JsonView) -> Option<Seq<char>> {
    match tree {
        JsonView::Str(s) => Some(s),
        _ => None,
    }
}

/// The truth value of a boolean.
pub open spec fn bool_of(tree: JsonView) -> Option<bool> {
    match tree {
        JsonView::Bool(b) => Some(b),
        _ => None,
    }
}

/// The integer of a number that is written as one, where a `u64` can hold it.
pub open spec fn u64_of(tree: JsonView) -> Option<u64> {
    match tree {
        JsonView::Int(n) => if 0 <= n <= u64::MAX {
            Some(n as u64)
        } else {
            None
        },
        _ => None,
    }
}

/// The last entry under a name is what the fields hold under it.
proof fn lemma_entries_view_last(entries: Seq<(String, Json)>, name: Seq<char>, k: int)
    requires
        -1 <= k < entries.len(),
        k >= 0 ==> entries[k].0@ == name,
        forall|i: int| k < i < entries.len() ==> (#[trigger] entries[i]).0@ != name,
    ensures
        entries_view(entries).contains_key(name) <==> k >= 0,
        k >= 0 ==> entries_view(entries)[name] == entries[k].1@,
    decreases entries.len(),
{
    if entries.len() > 0 && k < entries.len() - 1 {
        let front = entries.drop_last();
        assert(entries.last().0@ != name);
        assert forall|i: int| k < i < front.len() implies (#[trigger] front[i]).0@ != name by {
            assert(front[i] == entries[i]);
        }
        lemma_entries_view_last(front, name, k);
    }
}

impl Json {
    /// Reads a value from its text; for a text that is no JSON, the words of the error.
    pub fn parse(text: &str) -> (result: Result<Json, String>)
        ensures
            match result {
                Ok(json) => json_parse(text@) == Ok::<JsonView, Seq<char>>(json@),
                Err(words) => json_parse(text@) == Err::<JsonView, Seq<char>>(words@),
            },
    {
        match value_from_str(text) {
            Ok(value) => Ok(from_value(value)),
            Err(words) => Err(words),
        }
    }

    /// The compact text of the value.
    pub fn to_text(self) -> (text: String)
        ensures
            text@ == json_text(self@),
            readable(self@) ==> reads_alike(text@, self@),
            reads_back(self@) ==> reads_as(text@, self@),
    {
        let value = to_value(self);
        let text = value_to_string(&value);
        proof {
            if reads_back(self@) {
                lemma_alike_to_plain(self@, self@, 127);
                lemma_alike_to_plain(json_parse(text@)->Ok_0, self@, 127);
            }
        }
        text
    }

    /// The field `name` of an object.
    pub fn get(&self, name: &str) -> (found: Option<&Json>)
        ensures
            opt_view(found) == field(self@, name@),
    {
        match self {
            Json::Object(fields) => {
                let mut i: usize = fields.entries.len();
                while i > 0
                    invariant
                        i <= fields.entries@.len(),
                        *self == Json::Object(*fields),
                        forall|j: int|
                            i <= j < fields.entries@.len() ==> (
                            #[trigger] fields.entries@[j]).0@ != name@,
                    decreases i,
                {
                    i = i - 1;
                    if same(fields.entries[i].0.as_str(), name) {
                        proof {
                            lemma_entries_view_last(fields.entries@, name@, i as int);
                        }
                        return Some(&fields.entries[i].1);
                    }
                }
                proof {
                    lemma_entries_view_last(fields.entries@, name@, -1);
                }
                None
            },
            _ => None,
        }
    }

    /// The text of a string value.
    pub fn as_str(&self) -> (text: Option<&str>)
        ensures
            opt_text(text) == str_of(self@),
    {
        match self {
            Json::Str(s) => Some(s.as_str()),
            _ => None,
        }
    }

    /// The truth value of a boolean.
    pub fn as_bool(&self) -> (truth: Option<bool>)
        ensures
            truth == bool_of(self@),
    {
        match self {
            Json::Bool(b) => Some(*b),
            _ => None,
        }
    }

    /// The integer of a number that is written as one, where a `u64` can hold it.
    pub fn as_u64(&self) -> (n: Option<u64>)
        ensures
            n == u64_of(self@),
    {
        match self {
            Json::Unsigned(n) => Some(*n),
            Json::Signed(n) => if *n >= 0 {
                Some(*n as u64)
            } else {
                None
            },
            Json::Float(n) => number_as_u64(n),
            _ => None,
        }
    }
}

}
