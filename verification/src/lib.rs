//! Exports records of a transactional key-value store into an analytical SQL
//! store: protobuf schemas say how the value bytes of each key are read, and a
//! binding maps the fields of a message onto the columns of a table.
//!
//! The crate holds the rules of that export: how a column's type name is read,
//! how a message is bound to a table, how a decoded message becomes a row of
//! SQL literals, how rows become one `INSERT` statement, and how the scan of a
//! key range resumes after the store has expired a transaction.
pub mod cli;
pub mod clickhouse;
pub mod clickhouse_message_binding;
pub mod clickhouse_table;
pub mod column_type;
pub mod config;
pub mod context;
pub mod error;
pub mod export;
pub mod find;
pub mod number;
pub mod postgres;
pub mod protobuf;
pub mod protobuf_registry;
pub mod single_insert;
pub mod text;
