pub mod text;
pub mod order;
pub mod model;
pub mod vault;
pub mod theme;
pub mod config;
pub mod filter;
pub mod clock;
pub mod app;
pub mod sync;
pub mod rows;
pub mod filtering;
pub mod edits;
pub mod events;
pub mod keys;
pub mod view;
pub mod api;
