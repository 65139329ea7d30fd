pub mod create;
pub mod delete;
pub mod errors;
pub mod handlers;
pub mod laws;
pub mod query;
pub mod read;
pub mod store;
pub mod update;
