//! A connector for MotherDuck: the JSON ABI over which a host connects, runs SQL, asks for metadata
//! and closes.
//!
//! The library decides. It says what a request asks for, which statement the database driver is to
//! run next, and what the reply is; the driver itself runs outside of it and tells what came back.
use crate::abi::{owned_buffer, request_in};
use crate::documents::{CONFIG_JSON, MANIFEST_JSON};
use crate::driver::{answers_request, call_json, replies, Call};
use vstd::prelude::*;
use vstd::string::*;

pub use crate::abi::IrodoriConnectorBuffer;

pub mod abi;
pub mod catalog;
pub mod catalog_laws;
pub mod connect;
pub mod documents;
pub mod driver;
pub mod json;
pub mod laws;
pub mod query;
pub mod sessions;
pub mod text;

verus! {

/// The version of the ABI.
pub const ABI_VERSION: u32 = 1;

/// The name of the engine.
pub const ENGINE: &'static str = "motherduck";

/// The version of the ABI.
pub fn irodori_extension_abi_version() -> (version: u32)
    ensures
        version == ABI_VERSION,
        version == 1,
{
    ABI_VERSION
}

/// The name of the engine.
pub fn irodori_connector_engine_json() -> (buffer: IrodoriConnectorBuffer)
    ensures
        buffer.holds(ENGINE@),
        buffer.holds("motherduck"@),
{
    owned_buffer(ENGINE.to_owned())
}

/// The manifest of the extension.
pub fn irodori_extension_manifest_json() -> (buffer: IrodoriConnectorBuffer)
    ensures
        buffer.holds(MANIFEST_JSON@),
{
    owned_buffer(MANIFEST_JSON.to_owned())
}

/// The configuration of the connector.
pub fn irodori_connector_config_json() -> (buffer: IrodoriConnectorBuffer)
    ensures
        buffer.holds(CONFIG_JSON@),
{
    owned_buffer(CONFIG_JSON.to_owned())
}

/// What a buffer asks for.
pub fn irodori_connector_call_json(request: IrodoriConnectorBuffer) -> (call: Call)
    requires
        request.valid(),
    ensures
        match request_in(request.text()) {
            Err(tree) => replies(call, tree),
            Ok(asked) => answers_request(call, asked),
        },
{
    call_json(request)
}

}
