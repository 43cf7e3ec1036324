//! Plugin-level config: NuGet source and API key, with an `apiKey` alias for
//! `nugetApiKey`.

use vstd::prelude::*;
use crate::text::{blank, is_blank};

verus! {

/// The `dotnet` plugin's own configuration.
pub struct DotnetConfig {
    pub nuget_source: String,
    pub nuget_api_key: String,
    pub api_key: String,
}

/// The NuGet source used when none is configured.
pub open spec fn default_nuget_source() -> Seq<char> {
    "https://api.nuget.org/v3/index.json"@
}

impl Default for DotnetConfig {
    fn default() -> (r: Self)
        ensures
            r.nuget_source@ == default_nuget_source(),
            r.nuget_api_key@ == Seq::<char>::empty(),
            r.api_key@ == Seq::<char>::empty(),
    {
        DotnetConfig {
            nuget_source: String::from_str("https://api.nuget.org/v3/index.json"),
            nuget_api_key: String::new(),
            api_key: String::new(),
        }
    }
}

impl DotnetConfig {
    /// The API key in force: `nugetApiKey` when it is not blank, else the
    /// `apiKey` alias.
    pub open spec fn key(&self) -> Seq<char> {
        if !blank(self.nuget_api_key@) {
            self.nuget_api_key@
        } else {
            self.api_key@
        }
    }

    /// Resolved NuGet API key: prefer `nugetApiKey`, fall back to the `apiKey`
    /// alias.
    pub fn resolved_api_key(&self) -> (r: &str)
        ensures
            r@ == self.key(),
    {
        if !is_blank(self.nuget_api_key.as_str()) {
            self.nuget_api_key.as_str()
        } else {
            self.api_key.as_str()
        }
    }
}

} // verus!
