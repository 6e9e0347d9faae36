//! A manga library: what is asked of its database, where its chapters are
//! stored and how its requests are answered.
pub mod cancel;
pub mod chapter_paths;
pub mod chapter_storage;
pub mod chapters;
pub mod clock;
pub mod database;
pub mod details;
pub mod digest;
pub mod effects;
pub mod filenames;
pub mod hot_replace;
pub mod images;
pub mod keyed;
pub mod library;
pub mod model;
pub mod ordered;
pub mod paths;
pub mod persist;
pub mod queries;
pub mod readback;
pub mod requests;
pub mod revoke;
pub mod roundtrips;
pub mod routes;
pub mod rows;
pub mod sizes;
pub mod sorting;
pub mod source;
pub mod sql;
pub mod statement;
pub mod storage_files;
pub mod tables;
pub mod tags;
pub mod text;
pub mod upserts;
pub mod web;
