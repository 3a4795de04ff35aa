//! The JSON connector ABI: buffers, replies, and what a request asks for.
use crate::json::{
    field, json_parse, json_text, no_fields, opt_text, opt_view, readable, reads_alike, reads_as,
    reads_back, str_of, u64_of, Fields, Json, JsonView,
};
use crate::text::{blank, is_blank, trim, trimmed};
use vstd::prelude::*;
use vstd::slice::slice_subrange;
use vstd::string::*;
use vstd::utf8::*;

verus! {

/// A run of bytes that crosses the ABI. `ptr` is the memory that the pointer shows, `None` for the
/// null pointer; `len` says how much of it is meant.
#[derive(Debug)]
pub struct IrodoriConnectorBuffer {
    pub ptr: Option<Vec<u8>>,
    pub len: usize,
}

impl IrodoriConnectorBuffer {
    /// The memory behind the pointer reaches as far as `len` says.
    pub open spec fn valid(self) -> bool {
        self.ptr matches Some(memory) ==> self.len <= memory@.len()
    }

    /// The bytes that are meant, of a pointer that is not null.
    pub open spec fn bytes(self) -> Option<Seq<u8>> {
        match self.ptr {
            Some(memory) => Some(memory@.take(self.len as int)),
            None => None,
        }
    }

    /// The text in the buffer: an empty null buffer holds the empty text, any other null buffer
    /// none, and bytes hold one where they are UTF-8.
    pub open spec fn text(self) -> Option<Seq<char>> {
        match self.bytes() {
            Some(bytes) => if valid_utf8(bytes) {
                Some(decode_utf8(bytes))
            } else {
                None
            },
            None => if self.len == 0 {
                Some(Seq::empty())
            } else {
                None
            },
        }
    }

    /// The buffer is not null and holds exactly `text`: its memory ends where the text does.
    pub open spec fn holds(self, text: Seq<char>) -> bool {
        &&& self.ptr matches Some(memory) && memory@.len() == self.len
        &&& self.bytes() == Some(encode_utf8(text))
        &&& self.text() == Some(text)
    }

    /// The buffer holds the text of `tree`, and who reads it as JSON gets `tree`, but that a float
    /// may be rounded.
    pub open spec fn carries(self, tree: JsonView) -> bool {
        &&& self.holds(json_text(tree))
        &&& readable(tree) ==> reads_alike(json_text(tree), tree)
        &&& reads_back(tree) ==> reads_as(json_text(tree), tree)
    }
}

/// `std::str::from_utf8`: the text of bytes that are UTF-8, and of no others.
#[verifier::external_body]
fn utf8_text(bytes: &[u8]) -> (text: Option<&str>)
    ensures
        text is Some <==> valid_utf8(bytes@),
        text matches Some(s) ==> s@ == decode_utf8(bytes@),
{
    std::str::from_utf8(bytes).ok()
}

/// A reply of success: the payload, and `ok` as true.
pub open spec fn ok_tree(payload: Map<Seq<char>, JsonView>) -> JsonView {
    JsonView::Object(payload.insert("ok"@, JsonView::Bool(true)))
}

/// A reply of failure: `ok` as false, and what went wrong.
pub open spec fn error_tree(code: Seq<char>, message: Seq<char>) -> JsonView {
    JsonView::Object(
        no_fields().insert("ok"@, JsonView::Bool(false)).insert(
            "error"@,
            JsonView::Object(
                no_fields().insert("code"@, JsonView::Str(code)).insert(
                    "message"@,
                    JsonView::Str(message),
                ),
            ),
        ),
    )
}

/// What a text that was read as JSON asks: the value, or the reply to a text that is no JSON.
pub open spec fn accepted(parsed: Result<JsonView, Seq<char>>) -> Result<JsonView, JsonView> {
    match parsed {
        Ok(tree) => Ok(tree),
        Err(words) => Err(
            error_tree(
                "connector.invalidJson"@,
                "Connector request must be valid JSON: "@ + words,
            ),
        ),
    }
}

/// What a buffer asks: nothing (an empty request), a JSON value, or the reply to a buffer that
/// holds neither.
pub open spec fn request_in(text: Option<Seq<char>>) -> Result<Option<JsonView>, JsonView> {
    match text {
        None => Err(
            error_tree(
                "connector.invalidRequest"@,
                "Connector request buffer must be empty or valid UTF-8 JSON."@,
            ),
        ),
        Some(text) => if blank(text) {
            Ok(None)
        } else {
            match accepted(json_parse(trimmed(text))) {
                Ok(tree) => Ok(Some(tree)),
                Err(tree) => Err(tree),
            }
        },
    }
}

/// The field `name`, where it is a string with more than white space in it.
pub open spec fn string_in(tree: JsonView, name: Seq<char>) -> Option<Seq<char>> {
    match field(tree, name) {
        Some(value) => match str_of(value) {
            Some(text) => if blank(text) {
                None
            } else {
                Some(text)
            },
            None => None,
        },
        None => None,
    }
}

/// The same field of the request's `profile`.
pub open spec fn in_profile(tree: JsonView, name: Seq<char>) -> Option<Seq<char>> {
    match field(tree, "profile"@) {
        Some(profile) => string_in(profile, name),
        None => None,
    }
}

/// `first`, or else `second`.
pub open spec fn or_else<T>(first: Option<T>, second: Option<T>) -> Option<T> {
    match first {
        Some(_) => first,
        None => second,
    }
}

/// The method that a request names; an empty request asks for the connector's health.
pub open spec fn method_in(request: Option<JsonView>) -> Option<Seq<char>> {
    match request {
        None => Some("health"@),
        Some(tree) => string_in(tree, "method"@),
    }
}

/// The field `name` of the request, or else of its profile.
pub open spec fn profile_string(tree: JsonView, name: Seq<char>) -> Option<Seq<char>> {
    or_else(string_in(tree, name), in_profile(tree, name))
}

/// The name of the connection that a request is about.
pub open spec fn connection_named(request: Option<JsonView>) -> Seq<char> {
    let name = match request {
        None => None,
        Some(tree) => or_else(
            or_else(string_in(tree, "connectionId"@), string_in(tree, "id"@)),
            in_profile(tree, "id"@),
        ),
    };
    match name {
        Some(name) => trimmed(name),
        None => "default"@,
    }
}

/// How many rows a request wants at most: `maxRows`, where there is none `limit`, and 10000 where
/// what it found is no natural number; at least 1 and at most 100000.
pub open spec fn rows_wanted(tree: JsonView) -> int {
    let wanted = match or_else(field(tree, "maxRows"@), field(tree, "limit"@)) {
        Some(value) => match u64_of(value) {
            Some(n) => n as int,
            None => 10_000,
        },
        None => 10_000,
    };
    if wanted < 1 {
        1
    } else if wanted > 100_000 {
        100_000
    } else {
        wanted
    }
}

/// A buffer that holds `value`.
pub fn owned_buffer(value: String) -> (buffer: IrodoriConnectorBuffer)
    ensures
        buffer.holds(value@),
{
    let memory = value.as_str().as_bytes_vec();
    let len = memory.len();
    proof {
        encode_utf8_valid_utf8(value@);
        encode_utf8_decode_utf8(value@);
        assert(memory@.take(len as int) =~= memory@);
    }
    IrodoriConnectorBuffer { ptr: Some(memory), len }
}

/// A buffer that holds the text of `value`.
pub fn json_buffer(value: Json) -> (buffer: IrodoriConnectorBuffer)
    ensures
        buffer.carries(value@),
{
    owned_buffer(value.to_text())
}

/// The text in a buffer.
pub fn buffer_to_string(buffer: &IrodoriConnectorBuffer) -> (result: Result<String, ()>)
    requires
        buffer.valid(),
    ensures
        match result {
            Ok(text) => buffer.text() == Some(text@),
            Err(_) => buffer.text() is None,
        },
{
    match &buffer.ptr {
        None => if buffer.len == 0 {
            Ok(String::new())
        } else {
            Err(())
        },
        Some(memory) => {
            let bytes = slice_subrange(memory.as_slice(), 0, buffer.len);
            assert(bytes@ =~= memory@.take(buffer.len as int));
            match utf8_text(bytes) {
                Some(text) => Ok(text.to_owned()),
                None => Err(()),
            }
        },
    }
}

/// The reply of success with `payload`.
pub fn ok(payload: Fields) -> (reply: IrodoriConnectorBuffer)
    ensures
        reply.carries(ok_tree(payload@)),
{
    json_buffer(Json::Object(payload.with("ok", Json::Bool(true))))
}

/// The reply of failure.
pub fn error(code: &str, message: String) -> (reply: IrodoriConnectorBuffer)
    ensures
        reply.carries(error_tree(code@, message@)),
{
    let inner = Fields::new().with("code", Json::Str(code.to_owned())).with(
        "message",
        Json::Str(message),
    );
    json_buffer(
        Json::Object(
            Fields::new().with("ok", Json::Bool(false)).with("error", Json::Object(inner)),
        ),
    )
}

/// Two texts, one behind the other.
pub fn joined(front: &str, back: &str) -> (text: String)
    ensures
        text@ == front@ + back@,
{
    front.to_owned().concat(back)
}

/// The request in a buffer, or the reply to a buffer that holds none.
pub fn parse_request(buffer: &IrodoriConnectorBuffer) -> (result: Result<
    Option<Json>,
    IrodoriConnectorBuffer,
>)
    requires
        buffer.valid(),
    ensures
        match (result, request_in(buffer.text())) {
            (Ok(None), Ok(None)) => true,
            (Ok(Some(json)), Ok(Some(tree))) => json@ == tree,
            (Err(reply), Err(tree)) => reply.carries(tree),
            _ => false,
        },
{
    let request = match buffer_to_string(buffer) {
        Ok(request) => request,
        Err(_) => {
            return Err(
                error(
                    "connector.invalidRequest",
                    "Connector request buffer must be empty or valid UTF-8 JSON.".to_owned(),
                ),
            );
        },
    };
    if is_blank(request.as_str()) {
        return Ok(None);
    }
    match accept(Json::parse(trim(request.as_str()))) {
        Ok(json) => Ok(Some(json)),
        Err(reply) => Err(reply),
    }
}

/// The request that was read, or the reply to a text that is no JSON.
pub fn accept(parsed: Result<Json, String>) -> (result: Result<Json, IrodoriConnectorBuffer>)
    ensures
        match (parsed, result) {
            (Ok(json), Ok(request)) => request == json,
            (Err(words), Err(reply)) => accepted(Err(words@)) matches Err(tree) && reply.carries(
                tree,
            ),
            _ => false,
        },
{
    match parsed {
        Ok(json) => Ok(json),
        Err(words) => Err(
            error(
                "connector.invalidJson",
                joined("Connector request must be valid JSON: ", words.as_str()),
            ),
        ),
    }
}

/// The method that a request names.
pub fn request_method(request: Option<&Json>) -> (result: Result<&str, IrodoriConnectorBuffer>)
    ensures
        match result {
            Ok(method) => method_in(opt_view(request)) == Some(method@),
            Err(reply) => method_in(opt_view(request)) is None && reply.carries(
                error_tree(
                    "connector.invalidRequest"@,
                    "Connector request needs a string method."@,
                ),
            ),
        },
{
    match request {
        None => Ok("health"),
        Some(value) => match string_field(value, "method") {
            Some(method) => Ok(method),
            None => Err(
                error(
                    "connector.invalidRequest",
                    "Connector request needs a string method.".to_owned(),
                ),
            ),
        },
    }
}

/// A field that is a string with more than white space in it.
pub fn string_field<'a>(value: &'a Json, name: &str) -> (text: Option<&'a str>)
    ensures
        opt_text(text) == string_in(value@, name@),
{
    match value.get(name) {
        None => None,
        Some(found) => match found.as_str() {
            None => None,
            Some(text) => if is_blank(text) {
                None
            } else {
                Some(text)
            },
        },
    }
}

/// The same, looked for in the request's `profile`.
fn nested_field<'a>(request: &'a Json, name: &str) -> (text: Option<&'a str>)
    ensures
        opt_text(text) == in_profile(request@, name@),
{
    match request.get("profile") {
        None => None,
        Some(profile) => string_field(profile, name),
    }
}

/// A field of the request, or else of its profile.
pub fn profile_field<'a>(request: &'a Json, name: &str) -> (text: Option<&'a str>)
    ensures
        opt_text(text) == profile_string(request@, name@),
{
    match string_field(request, name) {
        Some(text) => Some(text),
        None => nested_field(request, name),
    }
}

/// The name of the connection that a request is about.
pub fn connection_id(request: Option<&Json>) -> (id: String)
    ensures
        id@ == connection_named(opt_view(request)),
{
    let found = match request {
        None => None,
        Some(value) => match string_field(value, "connectionId") {
            Some(name) => Some(name),
            None => match string_field(value, "id") {
                Some(name) => Some(name),
                None => nested_field(value, "id"),
            },
        },
    };
    match found {
        Some(name) => trim(name).to_owned(),
        None => "default".to_owned(),
    }
}

/// How many rows a request wants at most.
pub fn max_rows(request: &Json) -> (rows: usize)
    ensures
        rows == rows_wanted(request@),
{
    let found = match request.get("maxRows") {
        Some(value) => Some(value),
        None => request.get("limit"),
    };
    let wanted: u64 = match found {
        Some(value) => match value.as_u64() {
            Some(n) => n,
            None => 10_000,
        },
        None => 10_000,
    };
    if wanted < 1 {
        1
    } else if wanted > 100_000 {
        100_000
    } else {
        wanted as usize
    }
}

}
