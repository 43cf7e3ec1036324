//! `dotnet build` — build a project with SemVer-derived assembly metadata.

use vstd::prelude::*;
use crate::dotnet::version::{assembly_or_file_version, derived, informational_version};
use crate::text::{cat, copy, opt_str, strs};

verus! {

/// The `build` step's configuration.
pub struct BuildConfig {
    pub project: String,
    pub version: Option<String>,
    pub assembly_version: Option<String>,
    pub file_version: Option<String>,
    pub informational_version: Option<String>,
    pub configuration: String,
    pub no_restore: bool,
}

impl Default for BuildConfig {
    fn default() -> (r: Self)
        ensures
            r.project@ == Seq::<char>::empty(),
            r.version is None,
            r.assembly_version is None,
            r.file_version is None,
            r.informational_version is None,
            r.configuration@ == "Release"@,
            !r.no_restore,
    {
        BuildConfig {
            project: String::new(),
            version: None,
            assembly_version: None,
            file_version: None,
            informational_version: None,
            configuration: String::from_str("Release"),
            no_restore: false,
        }
    }
}

/// The failure when AssemblyVersion cannot be determined.
pub open spec fn no_assembly_version() -> Seq<char> {
    "AssemblyVersion could not be determined. Please specify it in the configuration or provide a valid Version."@
}

/// The failure when FileVersion cannot be determined.
pub open spec fn no_file_version() -> Seq<char> {
    "FileVersion could not be determined. Please specify it in the configuration or provide a valid Version."@
}

/// The failure when InformationalVersion cannot be determined.
pub open spec fn no_informational_version() -> Seq<char> {
    "InformationalVersion could not be determined. Please specify it in the configuration or provide a valid Version."@
}

/// The argv of `dotnet build`, or the failure for the first version that
/// cannot be determined.
pub open spec fn build_argv(cfg: BuildConfig) -> Result<Seq<Seq<char>>, Seq<char>> {
    let av = derived(opt_str(cfg.assembly_version), opt_str(cfg.version), Some('-'));
    let fv = derived(opt_str(cfg.file_version), opt_str(cfg.version), Some('-'));
    let iv = derived(opt_str(cfg.informational_version), opt_str(cfg.version), None);
    if av is None {
        Err(no_assembly_version())
    } else if fv is None {
        Err(no_file_version())
    } else if iv is None {
        Err(no_informational_version())
    } else {
        Ok(seq![
            "build"@,
            cfg.project@,
            "-p:AssemblyVersion="@ + av->0,
            "-p:FileVersion="@ + fv->0,
            "-p:InformationalVersion="@ + iv->0,
            "--configuration"@,
            cfg.configuration@,
        ] + if cfg.no_restore {
            seq!["--no-restore"@]
        } else {
            Seq::empty()
        })
    }
}

/// The view of an argv-or-failure.
pub open spec fn argv_or_failure(r: Result<Vec<String>, String>) -> Result<Seq<Seq<char>>, Seq<char>> {
    match r {
        Ok(v) => Ok(strs(v@)),
        Err(e) => Err(e@),
    }
}

/// The argv of `dotnet build` for `cfg`, with the derived version properties;
/// fails when a version cannot be determined.
pub fn build_args(cfg: &BuildConfig) -> (r: Result<Vec<String>, String>)
    ensures
        argv_or_failure(r) == build_argv(*cfg),
{
    let av = match assembly_or_file_version(&cfg.assembly_version, &cfg.version) {
        Some(v) => v,
        None => return Err(String::from_str("AssemblyVersion could not be determined. Please specify it in the configuration or provide a valid Version.")),
    };
    let fv = match assembly_or_file_version(&cfg.file_version, &cfg.version) {
        Some(v) => v,
        None => return Err(String::from_str("FileVersion could not be determined. Please specify it in the configuration or provide a valid Version.")),
    };
    let iv = match informational_version(&cfg.informational_version, &cfg.version) {
        Some(v) => v,
        None => return Err(String::from_str("InformationalVersion could not be determined. Please specify it in the configuration or provide a valid Version.")),
    };
    let mut args: Vec<String> = Vec::new();
    args.push(String::from_str("build"));
    args.push(copy(cfg.project.as_str()));
    args.push(cat("-p:AssemblyVersion=", av.as_str()));
    args.push(cat("-p:FileVersion=", fv.as_str()));
    args.push(cat("-p:InformationalVersion=", iv.as_str()));
    args.push(String::from_str("--configuration"));
    args.push(copy(cfg.configuration.as_str()));
    if cfg.no_restore {
        args.push(String::from_str("--no-restore"));
    }
    assert(argv_or_failure(Ok(args)) =~= build_argv(*cfg)) by {
        assert(strs(args@) =~= build_argv(*cfg)->Ok_0);
    }
    Ok(args)
}

} // verus!
