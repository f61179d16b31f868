//! The verified core of the app: version strings, the API's listen address,
//! logging plans, directory walking, and the records the services exchange.

pub mod text;
pub mod version;
pub mod port;
pub mod visit;
pub mod logging;
pub mod models;
pub mod health;
pub mod four_bytes;
pub mod token_list;
pub mod cli;
