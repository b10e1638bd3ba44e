//! Turns a relational dump (table definitions and row inserts) into typed,
//! column-oriented batches, one table at a time.
//!
//! The work is done in three stages. `reassembler` gathers the lines of the dump
//! into complete statements. `line_parser` turns each statement into a `Line`: a
//! table definition with its schema, a batch of rows, or nothing to do; `guard`
//! decides before it which statements the grammar is asked about.
//! `parquet_writer` takes the lines in order, keeps track of the one table that is
//! open, builds the typed columns of each batch, and says what is to be done with
//! the encoder. Reading the input and writing the files is left to the caller.

pub mod schema;
pub mod text;
pub mod number;
pub mod reassembler;
pub mod sql;
pub mod guard;
pub mod line_parser;
pub mod timestamp;
pub mod columns;
pub mod arrow_schema;
pub mod parquet_writer;
