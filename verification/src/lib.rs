mod ids;
pub mod handlers;
pub mod laws;
pub mod list;
pub mod store;
pub mod todo;
