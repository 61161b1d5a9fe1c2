//! Authentication and authorization core of an administrative console.
//!
//! The library issues and validates session-bound tokens over a
//! TTL-aware session cache, resolves the set of departments a user may
//! query from their roles, and turns a flat permission-filtered menu
//! list into the hierarchical structure a client UI renders.

pub mod config;
pub mod error;
pub mod text;
pub mod store;
pub mod user;
pub mod role;
pub mod dept;
pub mod scope;
pub mod menu;
pub mod menu_tree;
pub mod menu_build;
pub mod jwt;
pub mod session;
pub mod auth;

pub use config::AppConfig;
pub use error::AppError;
