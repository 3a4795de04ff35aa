//! The documents that describe the connector to its host.
use vstd::prelude::*;

verus! {

/// The manifest of the extension.
pub const MANIFEST_JSON: &'static str = r#"{
  "id": "irodori.motherduck",
  "name": "MotherDuck Connector",
  "description": "Adds MotherDuck connectivity as an installable connector extension.",
  "permissions": ["connectors"],
  "contributes": {
    "connectors": [
      {
        "engine": "motherduck",
        "wire": "duckdb",
        "defaultPort": 443,
        "module": { "abi": "irodori.connector.native.v1", "path": "dist/native" },
        "connection": {
          "endpointModes": ["motherduckService", "localFile", "inMemory", "connectionString"],
          "transportModes": ["direct", "sshTunnel", "socks5Proxy", "httpConnectProxy", "proxyChain"],
          "tls": { "supported": true },
          "customDriverOptions": true,
          "authMethods": [
            { "id": "none", "label": "No authentication", "secretPurposes": [] },
            { "id": "connectionString", "label": "Connection string / DSN", "secretPurposes": [] },
            { "id": "motherduckToken", "label": "MotherDuck token", "secretPurposes": ["token"] },
            { "id": "oauth2", "label": "OAuth 2.0", "secretPurposes": ["token"] },
            { "id": "browserSso", "label": "Browser SSO", "secretPurposes": ["token"] },
            {
              "id": "customDriverOptions",
              "label": "Custom driver options",
              "secretPurposes": ["password", "token", "privateKey", "privateKeyPassphrase"]
            }
          ],
          "secretPurposes": ["password", "token", "privateKey", "privateKeyPassphrase"]
        }
      }
    ]
  }
}
"#;

/// The configuration of the connector.
pub const CONFIG_JSON: &'static str = r#"{
  "extensionId": "irodori.motherduck",
  "connector": {
    "engine": "motherduck",
    "wire": "duckdb",
    "defaultPort": 443,
    "module": { "abi": "irodori.connector.native.v1", "path": "dist/native" }
  },
  "connection": {
    "endpointModes": ["motherduckService", "localFile", "inMemory", "connectionString"],
    "transportModes": ["direct", "sshTunnel", "socks5Proxy", "httpConnectProxy", "proxyChain"],
    "tls": { "supported": true },
    "customDriverOptions": true,
    "authMethods": [
      { "id": "none", "label": "No authentication", "secretPurposes": [] },
      { "id": "connectionString", "label": "Connection string / DSN", "secretPurposes": [] },
      { "id": "motherduckToken", "label": "MotherDuck token", "secretPurposes": ["token"] },
      { "id": "oauth2", "label": "OAuth 2.0", "secretPurposes": ["token"] },
      { "id": "browserSso", "label": "Browser SSO", "secretPurposes": ["token"] },
      {
        "id": "customDriverOptions",
        "label": "Custom driver options",
        "secretPurposes": ["password", "token", "privateKey", "privateKeyPassphrase"]
      }
    ],
    "secretPurposes": ["password", "token", "privateKey", "privateKeyPassphrase"]
  },
  "runtime": { "driverLinked": true }
}
"#;

}
