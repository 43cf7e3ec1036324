//! Verified decision logic of the Moonlit first-party release plugins.

pub mod text;
pub mod rx;
pub mod uclass;
pub mod paths;
pub mod dotnet;
pub mod strmap;
pub mod docker;
pub mod git;
pub mod recency;
pub mod forge;
pub mod github;
pub mod gitlab;
pub mod moonlit;
pub mod nodejs;
