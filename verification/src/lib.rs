//! Country and currency refresh pipeline.
//!
//! The crate joins country records with an exchange-rate table, derives an
//! estimated GDP per country, plans the chunked persistence of the result,
//! sequences a refresh cycle, and lays out the summary report.

pub mod clock;
pub mod countries;
pub mod decimal;
pub mod image;
pub mod models;
pub mod persist;
pub mod rates;
pub mod refresh;
pub mod routes;
pub mod store;
pub mod tasks;
pub mod text;
