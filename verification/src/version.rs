use vstd::prelude::*;

verus! {

/// The configuration format versions this project has had.
#[derive(Debug, Copy, Clone, PartialEq, Eq, Structural)]
pub enum VersionTag {
    Version3,
    Version4,
    Version5,
}

/// The warning text for a deprecated configuration version, or nothing for
/// the current one.
pub fn deprecated_config_warning(version: VersionTag) -> (r: Option<String>)
    ensures
        match version {
            VersionTag::Version3 => r matches Some(s) && s@
                == "Warning: ndc-postgres configuration version '3' is deprecated.\nConsider upgrading to the latest version:\nhttps://hasura.io/docs/3.0/connectors/postgresql/configuration-reference/#upgrading-the-configuration-format-version"@,
            VersionTag::Version4 => r matches Some(s) && s@
                == "Warning: ndc-postgres configuration version '4' is deprecated.\nConsider upgrading to the latest version:\nhttps://hasura.io/docs/3.0/connectors/postgresql/configuration-reference/#upgrading-the-configuration-format-version"@,
            VersionTag::Version5 => r is None,
        },
{
    match version {
        VersionTag::Version3 => Some(
            "Warning: ndc-postgres configuration version '3' is deprecated.\nConsider upgrading to the latest version:\nhttps://hasura.io/docs/3.0/connectors/postgresql/configuration-reference/#upgrading-the-configuration-format-version".to_owned(),
        ),
        VersionTag::Version4 => Some(
            "Warning: ndc-postgres configuration version '4' is deprecated.\nConsider upgrading to the latest version:\nhttps://hasura.io/docs/3.0/connectors/postgresql/configuration-reference/#upgrading-the-configuration-format-version".to_owned(),
        ),
        VersionTag::Version5 => None,
    }
}

} // verus!
