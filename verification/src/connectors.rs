//! What the storage connectors make of parsed-album events: relational rows
//! and graph updates. The connectors' database writes are the application's.
pub mod album_rows;

pub mod graph_updates;
