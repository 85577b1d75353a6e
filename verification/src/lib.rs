//! A room alias directory: parsing of aliases, an alias store with unique
//! keys, and the create / resolve / delete operations built on them.

pub mod alias;
pub mod directory;
pub mod endpoint;
pub mod error;
pub mod federation;
pub mod laws;
pub mod store;
pub mod text;
