# MotherDuck connector

A connector extension for MotherDuck: a host connects, runs SQL, asks for metadata and closes
over a JSON ABI.

- `src/` is the verified library. It reads requests, decides which statement the database driver
  is to run next, and writes replies. Whatever the driver answers is handed back to it as plain
  values.
- `app/` is the native side: the C ABI, the table of open connections and the DuckDB driver.
- `tests/` runs the library with answers that the tests give in place of the driver.

| Module | What it holds |
|---|---|
| `text` | White space, letter case, prefixes and the order of strings |
| `json` | JSON values, read and written with `serde_json` |
| `abi` | Buffers, replies, and the fields of a request |
| `documents` | The manifest and the configuration |
| `sessions` | The open connections, by name |
| `connect` | Opening a connection, and the sample data |
| `query` | Statements, cells, rows and their number |
| `catalog` | Tables, views and columns, grouped by schema |
| `driver` | What each request comes to |
| `laws`, `catalog_laws` | What holds of the connector as a whole |
