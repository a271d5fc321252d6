use vstd::prelude::*;
use crate::value::JsonValue;

verus! {

/// A materialized view declared in a model file.
pub struct Materialization {
    pub view: Option<String>,
    pub table: Option<String>,
    pub sql: Option<String>,
}

/// One column a model file declares for a table.
pub struct Column {
    pub r_type: Option<String>,
    pub name: String,
}

/// A named type a model file declares.
pub struct Type {
    pub r_type: String,
    pub name: String,
    pub attributes: Option<Vec<Type>>,
}

/// How one field of a file-backed table is read.
pub struct FieldDef {
    pub th: Option<String>,
    pub name: Option<String>,
    pub selector: Option<String>,
    pub skip: Option<String>,
    pub pattern: Option<String>,
    pub match_group: Option<u64>,
    pub selected_element: Option<u64>,
    pub r_type: Option<String>,
}

/// The connection options of one data source in a model file.
pub struct Operand {
    pub directory: Option<String>,
    pub path: Option<String>,
    pub host: Option<String>,
    pub port: Option<i32>,
    pub database: Option<i32>,
    pub password: Option<String>,
    pub username: Option<String>,
    pub keyspace: Option<String>,
    pub data_format: Option<String>,
    pub ssl: Option<bool>,
    pub dc: Option<bool>,
    pub path_to_cert: Option<String>,
    pub path_to_private_key: Option<String>,
    pub key_password: Option<String>,
    pub path_to_root_cert: Option<String>,
}

/// A table a model file declares, for sources that cannot infer their own
/// structure.
pub struct Table {
    pub name: Option<String>,
    pub r_type: Option<String>,
    pub factory: Option<String>,
    pub url: Option<String>,
    pub path: Option<String>,
    pub index: Option<u64>,
    pub table_name: Option<String>,
    pub operand: Option<Operand>,
    pub columns: Option<Vec<Column>>,
    pub field_defs: Option<Vec<FieldDef>>,
    pub sql: Option<String>,
    pub modifiable: Option<bool>,
    pub stream: Option<bool>,
    pub history: Option<bool>,
}

/// A user-defined function a model file declares.
pub struct Function {
    pub name: Option<String>,
    pub class_name: Option<String>,
    pub method_name: Option<String>,
    pub path: Option<Vec<String>>,
}

/// A measure of a lattice.
pub struct Measure {
    pub agg: Option<String>,
    pub args: Option<JsonValue>,
}

/// A tile of a lattice.
pub struct Tile {
    pub dimensions: Option<JsonValue>,
    pub measures: Option<Vec<Measure>>,
}

/// A lattice: the model file's declaration of aggregates.
pub struct Lattice {
    pub name: Option<String>,
    pub sql: Option<Vec<String>>,
    pub auto: Option<bool>,
    pub algorithm: Option<bool>,
    pub algorithm_max_millis: Option<i64>,
    pub row_count_estimate: Option<i64>,
    pub default_measures: Option<Vec<Measure>>,
    pub tiles: Option<Vec<Tile>>,
}

/// One schema of a model file: a connection or configuration of one data
/// source.
pub struct Schema {
    pub r_type: Option<String>,
    pub name: String,
    pub cache: Option<bool>,
    pub path: Option<Vec<JsonValue>>,
    pub sql_dialect_factory: Option<String>,
    pub jdbc_user: Option<String>,
    pub jdbc_password: Option<String>,
    pub jdbc_url: Option<String>,
    pub jdbc_catalog: Option<String>,
    pub jdbc_schema: Option<String>,
    pub factory: Option<String>,
    pub operand: Option<Operand>,
    pub types: Option<Vec<Type>>,
    pub materializations: Option<Vec<Materialization>>,
    pub lattices: Option<Vec<Lattice>>,
    pub tables: Option<Vec<Table>>,
}

/// A whole model file.
pub struct Model {
    pub version: String,
    pub default_schema: Option<String>,
    pub schemas: Option<Vec<Schema>>,
    pub functions: Option<Vec<Function>>,
    pub types: Option<Vec<Type>>,
}

} // verus!
