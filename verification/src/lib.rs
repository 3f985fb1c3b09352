//! Earthquake feed backend: the URL grammar of the USGS event service, the
//! reduction of its GeoJSON features to earthquake records, the SQL statements
//! that store and query those records, and the answers of the HTTP API.

pub mod api;
pub mod clients;
pub mod db;
pub mod text;
