//! `dotnet pack` — pack a project into a `.nupkg` and pick the produced package
//! from the output directory.

use vstd::prelude::*;
use crate::dotnet::build_step::argv_or_failure;
use crate::dotnet::{project_slug, slug};
use crate::dotnet::version::{assembly_or_file_version, derived, informational_version, package_version};
use crate::paths::{file_extension, file_stem, stem_of};
use crate::text::{cat, cat3, chars_of, copy, lex_lt, lex_lt_chars, opt_str, string_from, strs};

verus! {

/// The `pack` step's configuration.
pub struct PackConfig {
    pub project: String,
    pub version: Option<String>,
    pub assembly_version: Option<String>,
    pub file_version: Option<String>,
    pub informational_version: Option<String>,
    pub package_version: Option<String>,
    pub configuration: String,
    pub no_build: bool,
    pub no_restore: bool,
}

impl Default for PackConfig {
    fn default() -> (r: Self)
        ensures
            r.project@ == Seq::<char>::empty(),
            r.version is None,
            r.assembly_version is None,
            r.file_version is None,
            r.informational_version is None,
            r.package_version is None,
            r.configuration@ == "Release"@,
            !r.no_build,
            !r.no_restore,
    {
        PackConfig {
            project: String::new(),
            version: None,
            assembly_version: None,
            file_version: None,
            informational_version: None,
            package_version: None,
            configuration: String::from_str("Release"),
            no_build: false,
            no_restore: false,
        }
    }
}

/// The working-dir-relative output directory of a project's pack.
pub open spec fn out_rel_of(project: Seq<char>) -> Seq<char> {
    ".moonlit/dotnet/"@ + slug(project)
}

/// The output directory `.moonlit/dotnet/<slug>` for a project.
pub fn pack_out_rel(project: &str) -> (r: String)
    ensures
        r@ == out_rel_of(project@),
{
    let s = project_slug(project);
    cat(".moonlit/dotnet/", s.as_str())
}

/// The failure when PackageVersion cannot be determined.
pub open spec fn no_package_version() -> Seq<char> {
    "PackageVersion could not be determined. Please specify it in the configuration or provide a valid Version."@
}

/// The argv of `dotnet pack`, or the failure for the first version that cannot
/// be determined.
pub open spec fn pack_argv(cfg: PackConfig, out_rel: Seq<char>) -> Result<Seq<Seq<char>>, Seq<char>> {
    let av = derived(opt_str(cfg.assembly_version), opt_str(cfg.version), Some('-'));
    let fv = derived(opt_str(cfg.file_version), opt_str(cfg.version), Some('-'));
    let iv = derived(opt_str(cfg.informational_version), opt_str(cfg.version), None);
    let pv = derived(opt_str(cfg.package_version), opt_str(cfg.version), Some('+'));
    if av is None {
        Err(crate::dotnet::build_step::no_assembly_version())
    } else if fv is None {
        Err(crate::dotnet::build_step::no_file_version())
    } else if iv is None {
        Err(crate::dotnet::build_step::no_informational_version())
    } else if pv is None {
        Err(no_package_version())
    } else {
        Ok(seq![
            "pack"@,
            cfg.project@,
            "-p:AssemblyVersion="@ + av->0,
            "-p:FileVersion="@ + fv->0,
            "-p:InformationalVersion="@ + iv->0,
            "-p:PackageVersion="@ + pv->0,
            "-p:Version="@ + pv->0,
            "--output"@,
            out_rel,
            "--configuration"@,
            cfg.configuration@,
        ] + (if cfg.no_build {
            seq!["--no-build"@]
        } else {
            Seq::empty()
        }) + (if cfg.no_restore {
            seq!["--no-restore"@]
        } else {
            Seq::empty()
        }))
    }
}

/// The argv of `dotnet pack` for `cfg` writing into `out_rel`; fails when a
/// version cannot be determined.
pub fn pack_args(cfg: &PackConfig, out_rel: &str) -> (r: Result<Vec<String>, String>)
    ensures
        argv_or_failure(r) == pack_argv(*cfg, out_rel@),
{
    let av = match assembly_or_file_version(&cfg.assembly_version, &cfg.version) {
        Some(v) => v,
        None => return Err(String::from_str("AssemblyVersion could not be determined. Please specify it in the configuration or provide a valid Version.")),
    };
    let fv = match assembly_or_file_version(&cfg.file_version, &cfg.version) {
        Some(v) => v,
        None => return Err(String::from_str("FileVersion could not be determined. Please specify it in the configuration or provide a valid Version.")),
    };
    let iv = match informational_version(&cfg.informational_version, &cfg.version) {
        Some(v) => v,
        None => return Err(String::from_str("InformationalVersion could not be determined. Please specify it in the configuration or provide a valid Version.")),
    };
    let pv = match package_version(&cfg.package_version, &cfg.version) {
        Some(v) => v,
        None => return Err(String::from_str("PackageVersion could not be determined. Please specify it in the configuration or provide a valid Version.")),
    };
    let mut args: Vec<String> = Vec::new();
    args.push(String::from_str("pack"));
    args.push(copy(cfg.project.as_str()));
    args.push(cat("-p:AssemblyVersion=", av.as_str()));
    args.push(cat("-p:FileVersion=", fv.as_str()));
    args.push(cat("-p:InformationalVersion=", iv.as_str()));
    args.push(cat("-p:PackageVersion=", pv.as_str()));
    args.push(cat("-p:Version=", pv.as_str()));
    args.push(String::from_str("--output"));
    args.push(copy(out_rel));
    args.push(String::from_str("--configuration"));
    args.push(copy(cfg.configuration.as_str()));
    if cfg.no_build {
        args.push(String::from_str("--no-build"));
    }
    if cfg.no_restore {
        args.push(String::from_str("--no-restore"));
    }
    assert(strs(args@) =~= pack_argv(*cfg, out_rel@)->Ok_0);
    Ok(args)
}

/// A file name whose extension is `nupkg`.
pub open spec fn is_nupkg(name: Seq<char>) -> bool {
    file_extension(name) == Some("nupkg"@)
}

/// `name` is a package and no package name sorts before it.
pub open spec fn is_first_package(names: Seq<Seq<char>>, name: Seq<char>) -> bool {
    &&& names.contains(name)
    &&& is_nupkg(name)
    &&& forall|i: int| 0 <= i < names.len() && is_nupkg(#[trigger] names[i]) ==> !lex_lt(names[i], name)
}

/// Number of package names among `names[0..n]`.
pub open spec fn count_packages(names: Seq<Seq<char>>, n: int) -> nat
    decreases n,
{
    if n <= 0 {
        0
    } else {
        count_packages(names, n - 1) + if is_nupkg(names[n - 1]) {
            1nat
        } else {
            0nat
        }
    }
}

/// The failure when the pack produced no package.
pub fn no_packages() -> (r: String)
    ensures
        r@ == "No .nupkg files were created."@,
{
    String::from_str("No .nupkg files were created.")
}

/// The warning when several packages were produced.
pub open spec fn multiple_warning(first: Seq<char>) -> Seq<char> {
    "Multiple .nupkg files were created. Using the first one: "@ + file_stem(first)
}

/// Whether a file name has the extension `nupkg`.
pub fn has_nupkg_extension(name: &Vec<char>) -> (r: bool)
    ensures
        r == is_nupkg(name@),
{
    let segs = crate::text::split_chars(name, '.');
    let ghost sv = segs@.map_values(|v: Vec<char>| v@);
    assert(sv =~= crate::text::split_on(name@, '.'));
    proof {
        reveal_strlit("nupkg");
    }
    if name.len() == 2 && name[0] == '.' && name[1] == '.' {
        assert(name@ =~= crate::paths::dot_dot());
        return false;
    }
    if segs.len() <= 1 || (segs.len() == 2 && segs[0].len() == 0) {
        proof {
            if segs.len() == 2 && segs[0].len() == 0 {
                assert(sv[0] == segs@[0]@);
                assert(sv[0] =~= Seq::<char>::empty());
                assert(sv.drop_last() =~= seq![Seq::<char>::empty()]);
            }
        }
        return false;
    }
    proof {
        if name@ == crate::paths::dot_dot() {
            assert(name@.len() == 2 && name@[0] == '.' && name@[1] == '.');
        }
        if sv.drop_last() == seq![Seq::<char>::empty()] {
            assert(sv.drop_last().len() == 1);
            assert(sv.drop_last()[0] == sv[0]);
            assert(sv[0] == segs@[0]@);
            assert(segs@[0]@.len() == 0);
            assert(false);
        }
    }
    let last = &segs[segs.len() - 1];
    let r = last.len() == 5 && last[0] == 'n' && last[1] == 'u' && last[2] == 'p' && last[3] == 'k'
        && last[4] == 'g';
    proof {
        assert(sv.last() == last@);
        if r {
            assert(last@ =~= "nupkg"@);
        } else if last@ == "nupkg"@ {
            assert(last@.len() == 5);
        }
    }
    r
}

/// From the file names found in the output directory (logical relative path
/// `out_rel`), picks the package: the alphabetically first `*.nupkg`. Returns
/// its working-dir-relative path and, when more than one package was
/// produced, a warning; `Err(())` when there is none.
pub fn selected_package(names: &Vec<String>, out_rel: &str) -> (r: Result<(String, Option<String>), ()>)
    ensures
        r is Err <==> count_packages(strs(names@), names@.len() as int) == 0,
        r matches Ok((path, warning)) ==> exists|first: Seq<char>| {
            &&& is_first_package(strs(names@), first)
            &&& path@ == out_rel@ + seq!['/'] + first
            &&& (warning matches Some(w) ==> w@ == multiple_warning(first))
            &&& (warning is Some <==> count_packages(strs(names@), names@.len() as int) > 1)
        },
{
    let ghost ns = strs(names@);
    let mut best: Option<Vec<char>> = None;
    let mut count: usize = 0;
    let mut i: usize = 0;
    while i < names.len()
        invariant
            i <= names.len(),
            ns == strs(names@),
            count as nat == count_packages(ns, i as int),
            count <= i,
            best is None <==> count == 0,
            best matches Some(b) ==> {
                &&& is_nupkg(b@)
                &&& exists|k: int| 0 <= k < i && ns[k] == b@
                &&& forall|k: int| 0 <= k < i && is_nupkg(#[trigger] ns[k]) ==> !lex_lt(ns[k], b@)
            },
        decreases names.len() - i,
    {
        let cur = chars_of(names[i].as_str());
        assert(cur@ == ns[i as int]);
        if has_nupkg_extension(&cur) {
            let replace = match &best {
                None => true,
                Some(b) => lex_lt_chars(&cur, b),
            };
            proof {
                if let Some(b) = &best {
                    if replace {
                        assert forall|k: int| 0 <= k < i + 1 && is_nupkg(#[trigger] ns[k]) implies !lex_lt(ns[k], cur@) by {
                            if k < i && lex_lt(ns[k], cur@) {
                                crate::text::lemma_lex_transitive(ns[k], cur@, b@);
                            }
                            if k == i {
                                crate::text::lemma_lex_irreflexive(cur@);
                            }
                        }
                    } else {
                        assert forall|k: int| 0 <= k < i + 1 && is_nupkg(#[trigger] ns[k]) implies !lex_lt(ns[k], b@) by {
                            if k == i {
                                assert(ns[k] == cur@);
                            }
                        }
                    }
                } else {
                    assert forall|k: int| 0 <= k < i + 1 && is_nupkg(#[trigger] ns[k]) implies !lex_lt(ns[k], cur@) by {
                        if k < i {
                            assert(count_packages(ns, i as int) == 0);
                            lemma_no_packages(ns, i as int, k);
                        } else {
                            crate::text::lemma_lex_irreflexive(cur@);
                        }
                    }
                }
            }
            if replace {
                best = Some(cur);
            }
            count = count + 1;
        }
        i = i + 1;
    }
    assert(count_packages(ns, names@.len() as int) == count);
    match best {
        None => Err(()),
        Some(b) => {
            let name = string_from(&b);
            let path = cat3(out_rel, "/", name.as_str());
            proof {
                reveal_strlit("/");
                assert(ns.contains(b@));
            }
            assert(is_first_package(ns, b@));
            assert(path@ == out_rel@ + seq!['/'] + b@);
            let warning = if count > 1 {
                let stem = stem_of(&b);
                let stem_s = string_from(&stem);
                Some(cat("Multiple .nupkg files were created. Using the first one: ", stem_s.as_str()))
            } else {
                None
            };
            assert(warning is Some <==> count_packages(ns, names@.len() as int) > 1);
            assert(warning matches Some(w) ==> w@ == multiple_warning(b@));
            Ok((path, warning))
        },
    }
}

/// With no package among `ns[0..n]`, none of those names is a package.
proof fn lemma_no_packages(ns: Seq<Seq<char>>, n: int, k: int)
    requires
        0 <= k < n <= ns.len(),
        count_packages(ns, n) == 0,
    ensures
        !is_nupkg(ns[k]),
    decreases n,
{
    if k < n - 1 {
        lemma_no_packages(ns, n - 1, k);
    }
}

} // verus!
