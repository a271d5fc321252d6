use vstd::prelude::*;
use vstd::string::StrSliceExecFns;
use crate::model::{assoc_lookup, assoc_get};

verus! {

/// The metadata of one column of a collection.
pub struct ColumnMetadata {
    pub name: String,
    pub description: Option<String>,
    pub scalar_type: String,
    pub nullable: bool,
}

/// A foreign-key edge between two collections, as the catalog reports it.
pub struct ExportedKey {
    pub pk_table_catalog: Option<String>,
    pub pk_table_schema: Option<String>,
    pub pk_table_name: String,
    pub pk_column_name: String,
    pub pk_name: Option<String>,
    pub fk_table_catalog: Option<String>,
    pub fk_table_schema: Option<String>,
    pub fk_table_name: String,
    pub fk_column_name: String,
    pub fk_name: Option<String>,
}

/// The catalog's description of one collection: its qualified physical
/// name, columns, primary key and outgoing foreign keys.
pub struct TableMetadata {
    pub physical_catalog: Option<String>,
    pub physical_schema: Option<String>,
    pub catalog: Option<String>,
    pub schema: Option<String>,
    pub name: String,
    pub description: Option<String>,
    pub columns: Vec<ColumnMetadata>,
    pub primary_keys: Option<Vec<String>>,
    pub exported_keys: Option<Vec<ExportedKey>>,
}

/// The configuration format version this engine reads.
#[derive(PartialEq, Eq, Structural, Clone, Copy, Debug)]
pub enum Version {
    This,
}

/// The engine's configuration: flags that choose the statement flavour and
/// the shape-mending pass, and the catalog of collections.
pub struct ParsedConfiguration {
    pub version: Version,
    pub _schema: Option<String>,
    pub model_file_path: Option<String>,
    pub fixes: Option<bool>,
    pub supports_json_object: Option<bool>,
    pub jars: Option<String>,
    pub metadata: Option<Vec<(String, TableMetadata)>>,
}

/// The catalog entry of a collection, when the catalog holds one.
pub open spec fn table_of(cfg: ParsedConfiguration, coll: Seq<char>) -> Option<TableMetadata> {
    match cfg.metadata {
        None => None,
        Some(tables) => assoc_lookup(tables@, coll),
    }
}

/// Finds the catalog entry of a collection.
pub fn find_table<'a>(cfg: &'a ParsedConfiguration, coll: &String) -> (r: Option<
    &'a TableMetadata,
>)
    ensures
        match r {
            Some(t) => table_of(*cfg, coll@) == Some(*t),
            None => table_of(*cfg, coll@) is None,
        },
{
    match &cfg.metadata {
        None => None,
        Some(tables) => assoc_get(tables, coll),
    }
}

impl ParsedConfiguration {
    /// The configuration before anything is set: the shape-mending pass
    /// on, no flags, no catalog.
    pub fn empty() -> (r: ParsedConfiguration)
        ensures
            r.version == Version::This,
            r._schema matches Some(s) && s@ == "schema.json"@,
            r.model_file_path matches Some(p) && p@ == "/etc/connector/models/model.json"@,
            r.fixes == Some(true),
            r.supports_json_object is None,
            r.jars is None,
            r.metadata is None,
    {
        ParsedConfiguration {
            version: Version::This,
            _schema: Some("schema.json".to_owned()),
            model_file_path: Some("/etc/connector/models/model.json".to_owned()),
            fixes: Some(true),
            supports_json_object: None,
            jars: None,
            metadata: None,
        }
    }
}

/// A configuration already at the newest version stays as it is.
pub fn upgrade_to_latest_version(p: ParsedConfiguration) -> (r: ParsedConfiguration)
    ensures
        r == p,
{
    p
}

/// Whether a configuration directory holds anything, judged from the list
/// of file names found in it.
pub fn has_configuration(files: &Vec<String>) -> (r: bool)
    ensures
        r == (files@.len() != 0),
{
    files.len() != 0
}

/// Whether a file name carries a data-serialization-language extension:
/// it ends in `.yml` or `.yaml`, with the dot after at least one character
/// of the file's own name.
pub open spec fn is_yaml_name(s: Seq<char>) -> bool {
    ||| (s.len() >= 5 && s[s.len() - 4] == '.' && s[s.len() - 3] == 'y' && s[s.len() - 2] == 'm'
        && s[s.len() - 1] == 'l' && s[s.len() - 5] != '/')
    ||| (s.len() >= 6 && s[s.len() - 5] == '.' && s[s.len() - 4] == 'y' && s[s.len() - 3] == 'a'
        && s[s.len() - 2] == 'm' && s[s.len() - 1] == 'l' && s[s.len() - 6] != '/')
}

/// Decides whether a file name carries a data-serialization-language
/// extension.
pub fn has_yaml_extension(filename: &str) -> (r: bool)
    ensures
        r == is_yaml_name(filename@),
{
    let n = filename.unicode_len();
    let short = if n >= 5 && filename.get_char(n - 4) == '.' && filename.get_char(n - 3) == 'y'
        && filename.get_char(n - 2) == 'm' && filename.get_char(n - 1) == 'l' && filename.get_char(
        n - 5,
    ) != '/' {
        true
    } else {
        false
    };
    let long = if n >= 6 && filename.get_char(n - 5) == '.' && filename.get_char(n - 4) == 'y'
        && filename.get_char(n - 3) == 'a' && filename.get_char(n - 2) == 'm' && filename.get_char(
        n - 1,
    ) == 'l' && filename.get_char(n - 6) != '/' {
        true
    } else {
        false
    };
    short || long
}

} // verus!
