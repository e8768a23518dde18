//! A server core that hands out a random file per request: the cached
//! directory snapshot, the selection policy, the routing decision and
//! the paginated listing.

pub mod config;
pub mod file;
pub mod listing;
pub mod number;
pub mod order;
pub mod random_file_server;
pub mod route;
pub mod selection;
pub mod snapshot;
pub mod text;
pub mod traits;
