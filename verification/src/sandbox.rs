//! The sandbox configuration file's model.

use vstd::prelude::*;

verus! {

/// Who the capture process should become, and where it should be rooted.
#[derive(Debug, Clone, PartialEq, Eq)]
pub struct ArwahSandboxConfig {
    pub user: Option<String>,
    pub chroot: Option<String>,
}

/// The configuration file: one sandbox section.
#[derive(Debug, Clone, PartialEq, Eq)]
pub struct ArwahConfig {
    pub sandbox: ArwahSandboxConfig,
}

/// What the configuration grammar makes of the file's text.
pub uninterp spec fn spec_sandbox_config_of(s: Seq<char>) -> Option<ArwahConfig>;

/// Relies on `toml::from_str` into a TOML table and on the value
/// accessors: the sandbox section's two optional strings are read, and
/// text that is no TOML table is rejected.
#[verifier::external_body]
pub fn arwah_parse_sandbox_config(s: &str) -> (r: Option<ArwahConfig>)
    ensures
        r == spec_sandbox_config_of(s@),
{
    let table: toml::Table = toml::from_str(s).ok()?;
    let section = table.get("sandbox").and_then(|v| v.as_table());
    let field = |name: &str| {
        section.and_then(|t| t.get(name)).and_then(|v| v.as_str()).map(str::to_owned)
    };
    Some(ArwahConfig {
        sandbox: ArwahSandboxConfig { user: field("user"), chroot: field("chroot") },
    })
}

impl Default for ArwahConfig {
    /// An empty configuration: no user, no root.
    fn default() -> (r: Self)
        ensures
            r.sandbox.user is None,
            r.sandbox.chroot is None,
    {
        ArwahConfig { sandbox: ArwahSandboxConfig { user: None, chroot: None } }
    }
}

} // verus!
