//! The verified core of a small blogging site: how comment threads are laid
//! out, what the storage queries select, how storage failures become the
//! site's own errors, and the decisions taken by the request handlers.

pub mod model;
pub mod text;
pub mod render;
pub mod render_laws;
pub mod input_order;
pub mod queries;
pub mod query_laws;
pub mod errors;
pub mod services;
pub mod locations;
pub mod password_change;
pub mod access;
pub mod name_change;
pub mod project_creation;
pub mod handlers;
pub mod storage_laws;
