//! Data-engine request and schema types: loading files, running queries,
//! and describing tables.  Query result rows themselves stay with the
//! boundary layer; the engine only stores and forwards these records.

use vstd::prelude::*;

verus! {

/// Request to load a data file.
#[derive(Clone, Debug)]
pub struct LoadRequest {
    /// Unique name for the table.
    pub name: String,
    /// URL to the Parquet file.
    pub url: String,
}

/// Result of loading a file.
#[derive(Clone, Debug)]
pub struct LoadResult {
    /// Table name.
    pub name: String,
    /// Number of rows loaded.
    pub row_count: u64,
    /// Schema information.
    pub schema: TableSchema,
}

/// Request to execute a SQL query.
#[derive(Clone, Debug)]
pub struct QueryRequest {
    /// SQL query string.
    pub sql: String,
    /// Maximum rows to return.
    pub limit: u32,
}

/// Request to get a table schema.
#[derive(Clone, Debug)]
pub struct SchemaRequest {
    /// Table name.
    pub table: String,
}

/// Table schema information.
#[derive(Clone, Debug)]
pub struct TableSchema {
    /// Table name.
    pub name: String,
    /// Column definitions.
    pub columns: Vec<ColumnSchema>,
    /// Estimated row count.
    pub row_count: u64,
}

/// Column metadata.
#[derive(Clone, Debug)]
pub struct ColumnSchema {
    /// Column name.
    pub name: String,
    /// Data type.
    pub data_type: ColumnType,
    /// Whether the column can be null.
    pub nullable: bool,
}

/// SQL data types.
#[derive(Clone, Copy, Debug, PartialEq, Eq, Structural)]
pub enum ColumnType {
    /// Boolean.
    Boolean,
    /// 8-bit integer.
    Int8,
    /// 16-bit integer.
    Int16,
    /// 32-bit integer.
    Int32,
    /// 64-bit integer.
    Int64,
    /// 32-bit float.
    Float32,
    /// 64-bit float.
    Float64,
    /// UTF-8 string.
    String,
    /// Binary data.
    Binary,
    /// Date (days since epoch).
    Date,
    /// Timestamp with timezone.
    Timestamp,
    /// JSON object.
    Json,
    /// Unknown type.
    Unknown,
}

/// Request to list all loaded tables.
#[derive(Clone, Debug)]
pub struct ListTablesRequest {}

/// List of loaded tables.
#[derive(Clone, Debug)]
pub struct ListTablesResult {
    /// Table schemas.
    pub tables: Vec<TableSchema>,
}

/// All data-engine request types.
#[derive(Clone, Debug)]
pub enum DataRequest {
    Load(LoadRequest),
    Query(QueryRequest),
    Schema(SchemaRequest),
    ListTables(ListTablesRequest),
}

/// An available data file.
#[derive(Clone, Debug)]
pub struct DataFile {
    /// Display name.
    pub name: String,
    /// File path relative to the data directory.
    pub path: String,
    /// File size in bytes.
    pub size: u64,
    /// Category for grouping.
    pub category: String,
    /// Whether the file is large (>10MB).
    pub large: bool,
}

/// Data file manifest.
#[derive(Clone, Debug)]
pub struct DataManifest {
    /// Available files.
    pub files: Vec<DataFile>,
    /// Base URL for files.
    pub base_url: String,
}

} // verus!
