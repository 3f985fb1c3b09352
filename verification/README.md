# earthquake_backend

A backend that copies the USGS real-time earthquake feed into PostgreSQL and
serves it over HTTP (`GET /earthquakes`, `GET /earthquakes/{id}`).

- `src/` is the verified library (Verus): the URL grammar of the USGS event
  service (`clients::usgs`), the reduction of a GeoJSON answer to earthquake
  records, the SQL statements that store and read them (`db`), the answers of
  the HTTP API (`api::earthquakes`), one round of the background poller
  (`clients`), and decimal text (`text`). Floating-point values are carried as
  their IEEE 754 bits; the library only moves them.
- `app/main.rs` is the service: HTTP server (axum), the USGS fetch (reqwest,
  serde_json), PostgreSQL (sqlx), and logging (tracing). It converts between
  the library's records and their serde/sqlx forms and runs the statements the
  library composes.
- `tests/` exercise the library on concrete values.
