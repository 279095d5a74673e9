# otrecorder

An OwnTracks location recorder: it subscribes to an MQTT broker, stores
location fixes and other messages in SQLite, serves them over an HTTP API
(JSON, GeoJSON, GPX), imports OwnTracks recorder (`.rec`) files and exports
locations to Parquet.

## Layout

- `src/` is the library, written in Verus and verified. It holds the logic:
  topic parsing, `.rec` line classification and import counters, message
  routing by `_type`, the SQL text and bound values of every query, query
  string filters and timestamps, GPX documents and XML escaping,
  configuration defaults and path handling, byte counts for people, and the
  decisions of the MQTT loop. Laws that span functions are proof functions
  named `law_*`.
- `app/` is the program around it: command line, configuration file,
  SQLite, HTTP server, MQTT client, Parquet writer, and the floating-point
  geometry of the API.
- `tests/` runs the library on concrete inputs.

Calls into `chrono` (RFC 3339 parsing, UTC rendering) and `serde_json`
(reading one string member of a JSON payload) are the only trusted items besides
`String::push`; each names its result with an uninterpreted spec function.
