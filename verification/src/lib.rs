//! Planning and rendering for bulk-loading spreadsheet sheets into a SQL store.
//!
//! The library decides and renders; it never touches a file or the store.
//! [`run::Run`] gives the course of a whole run and [`task::FileTask`] the
//! load of one file: each says what to do next and takes in how it went.
//! The other modules hold what the two are made of: identifiers
//! ([`sanitize`]), cells and their literals ([`cell`], [`decimal`]), columns
//! and their types ([`schema`]), the text of statements ([`statement`]),
//! chunks of rows ([`batch`]), the query request ([`query`]), the file
//! extensions that are loaded ([`source`]), and what is taken on trust of the
//! standard library ([`text`]).

pub mod batch;
pub mod cell;
pub mod decimal;
pub mod query;
pub mod run;
pub mod sanitize;
pub mod schema;
pub mod source;
pub mod statement;
pub mod task;
pub mod text;
