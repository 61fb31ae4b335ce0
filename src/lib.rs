//! A personal media library core: the local collection, its cache projection,
//! the choice among download providers, file placement and the playback engine.
pub mod text;
pub mod model;
pub mod player;
pub mod repository;
pub mod cache;
pub mod scan;
pub mod download;
pub mod placement;
