//! The asset manager's records (projects, categories, assets) and the
//! operations that the manager applies to their lists.
pub mod model;
pub mod list;
pub mod projects;
pub mod categories;
pub mod assets;
pub mod manager;
