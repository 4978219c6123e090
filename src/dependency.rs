//! Dependency resolution: where each dependency's sources come from, how
//! it is built, and when a build from an earlier run is reused.

use crate::config::{
    BuildProfile, BuildSystemType, CrowDependencyBuild, Dependency, OutputType, MANIFEST_FILE,
};
use crate::text::{holds, join2, str_eq, vec_holds, views};
use crate::toolchain::{decimal, decimal_string, join_path, parent_of, parent_path, path_join};
use vstd::prelude::*;
use vstd::string::*;

verus! {

/// What a built (or previously built) dependency offers its consumers.
#[derive(Debug)]
pub struct DependencyBuildOutput {
    pub lib_name: String,
    pub library_path: String,
    pub library_dir: String,
    pub include_paths: Vec<String>,
}

/// A dependency once resolved: its key, the directory holding its
/// sources, and its build output.
#[derive(Debug)]
pub struct ResolvedDependency {
    pub name: String,
    pub source_dir: String,
    pub output: DependencyBuildOutput,
}

/// Why a dependency could not be resolved.
#[derive(Debug)]
pub enum DependencyError {
    /// A path dependency's directory does not exist.
    MissingPath { name: String, path: String },
    /// A dependency to be built natively has no manifest.
    MissingManifest { name: String },
    /// No build system was determined for the dependency.
    NotInferred { name: String },
    /// The foreign build finished but produced no library to be found.
    LibraryNotFound { name: String, dir: String },
    /// Building the dependency would need the dependency itself.
    Cycle { name: String },
}

/// How a dependency's sources are brought into place.
#[derive(Debug)]
pub enum FetchAction {
    /// Shallow-clone `url` at `branch` (empty: default branch) into `dest`.
    Clone { url: String, branch: String, dest: String },
    /// Pull updates into the existing clone at `dest`.
    Pull { dest: String },
    /// Copy the local directory `from` over `to` in the dependency cache.
    CopyToCache { from: String, to: String },
    /// Use the local directory as it is.
    UseLocal,
}

/// The fetch step for one dependency and where its sources will be.
#[derive(Debug)]
pub struct FetchPlan {
    pub action: FetchAction,
    pub source_dir: String,
}

/// Whether any dependency comes from a repository (so that the
/// version-control client must be present).
pub fn needs_git(deps: &Vec<(String, Dependency)>) -> (r: bool)
    ensures
        r == exists|i: int| 0 <= i < deps@.len() && (#[trigger] deps@[i]).1 is Git,
{
    let mut i: usize = 0;
    while i < deps.len()
        invariant
            i <= deps@.len(),
            forall|k: int| 0 <= k < i ==> !((#[trigger] deps@[k]).1 is Git),
        decreases deps@.len() - i,
    {
        if let Dependency::Git { .. } = &deps[i].1 {
            return true;
        }
        i = i + 1;
    }
    false
}

/// Decides how to bring a dependency's sources into place. `deps_dir` is
/// the dependency cache; `cached_copy_exists` says whether it already
/// holds a directory for `name`; `local_path_exists` whether a path
/// dependency's directory exists. A repository is cloned the first time
/// and pulled afterwards; a local directory is used in place, or copied
/// into the cache when the global cache is in use.
pub fn plan_fetch(
    name: &str,
    dep: &Dependency,
    deps_dir: &str,
    cached_copy_exists: bool,
    local_path_exists: bool,
    global_deps: bool,
) -> (r: Result<FetchPlan, DependencyError>)
    ensures
        fetch_outcome(name@, *dep, deps_dir@, cached_copy_exists, local_path_exists, global_deps, r),
{
    match dep {
        Dependency::Git { git, branch, .. } => {
            let dest = path_join(deps_dir, name);
            let action = if cached_copy_exists {
                FetchAction::Pull { dest: String::from_str(dest.as_str()) }
            } else {
                FetchAction::Clone {
                    url: String::from_str(git.as_str()),
                    branch: String::from_str(branch.as_str()),
                    dest: String::from_str(dest.as_str()),
                }
            };
            Ok(FetchPlan { action, source_dir: dest })
        },
        Dependency::Path { path, .. } => {
            if !local_path_exists {
                return Err(
                    DependencyError::MissingPath {
                        name: String::from_str(name),
                        path: String::from_str(path.as_str()),
                    },
                );
            }
            if global_deps {
                let dest = path_join(deps_dir, name);
                let action = FetchAction::CopyToCache {
                    from: String::from_str(path.as_str()),
                    to: String::from_str(dest.as_str()),
                };
                Ok(FetchPlan { action, source_dir: dest })
            } else {
                Ok(FetchPlan { action: FetchAction::UseLocal, source_dir: String::from_str(path.as_str()) })
            }
        },
    }
}

/// The version-control arguments that clone `url` into `dest`: a
/// shallow clone of depth one, of `branch` where one is named.
pub open spec fn clone_args(url: Seq<char>, branch: Seq<char>, dest: Seq<char>) -> Seq<Seq<char>> {
    seq!["clone"@, "--depth"@, "1"@] + (if branch.len() > 0 {
        seq!["--branch"@, branch]
    } else {
        Seq::empty()
    }) + seq![url, dest]
}

pub fn git_clone_args(url: &str, branch: &str, dest: &str) -> (r: Vec<String>)
    ensures
        views(r@) == clone_args(url@, branch@, dest@),
{
    let mut a: Vec<String> = Vec::new();
    push_one(&mut a, String::from_str("clone"));
    push_one(&mut a, String::from_str("--depth"));
    push_one(&mut a, String::from_str("1"));
    let ghost a0 = views(a@);
    if branch.unicode_len() > 0 {
        push_one(&mut a, String::from_str("--branch"));
        push_one(&mut a, String::from_str(branch));
    }
    let ghost a1 = views(a@);
    push_one(&mut a, String::from_str(url));
    push_one(&mut a, String::from_str(dest));
    assert(a1 =~= a0 + (if branch@.len() > 0 {
        seq!["--branch"@, branch@]
    } else {
        Seq::<Seq<char>>::empty()
    }));
    assert(views(a@) =~= clone_args(url@, branch@, dest@));
    a
}

/// The version-control arguments that pull updates into the clone at `dest`.
pub fn git_pull_args(dest: &str) -> (r: Vec<String>)
    ensures
        views(r@) == seq!["-C"@, dest@, "pull"@],
{
    let mut a: Vec<String> = Vec::new();
    push_one(&mut a, String::from_str("-C"));
    push_one(&mut a, String::from_str(dest));
    push_one(&mut a, String::from_str("pull"));
    assert(views(a@) =~= seq!["-C"@, dest@, "pull"@]);
    a
}

/// The build description a dependency declares, if any.
pub fn declared_build(dep: &Dependency) -> (r: Option<CrowDependencyBuild>)
    ensures
        match dep {
            Dependency::Git { build, .. } | Dependency::Path { build, .. } => match build {
                Some(b) => r matches Some(c) && c.same(&b),
                None => r is None,
            },
        },
{
    match dep {
        Dependency::Git { build, .. } | Dependency::Path { build, .. } => match build {
            Some(b) => Some(b.copy()),
            None => None,
        },
    }
}

/// Enters the native build of a dependency whose sources are in
/// `source_dir`, given the source directories of the builds already in
/// progress: a cycle where it is among them, else the list with it added.
pub fn enter_native_build(in_progress: &Vec<String>, name: &str, source_dir: &str) -> (r: Result<
    Vec<String>,
    DependencyError,
>)
    ensures
        holds(views(in_progress@), source_dir@) ==> (r matches Err(DependencyError::Cycle { name: n })
            && n@ == name@),
        !holds(views(in_progress@), source_dir@) ==> (r matches Ok(v) && views(v@) == views(
            in_progress@,
        ).push(source_dir@)),
{
    if vec_holds(in_progress, source_dir) {
        return Err(DependencyError::Cycle { name: String::from_str(name) });
    }
    let mut v: Vec<String> = Vec::new();
    let mut i: usize = 0;
    while i < in_progress.len()
        invariant
            i <= in_progress@.len(),
            views(v@) == views(in_progress@).subrange(0, i as int),
        decreases in_progress@.len() - i,
    {
        let ghost prev = v@;
        v.push(String::from_str(in_progress[i].as_str()));
        assert(views(v@) =~= views(prev).push(in_progress@[i as int]@));
        assert(views(in_progress@).subrange(0, i + 1) =~= views(in_progress@).subrange(0, i as int).push(
            in_progress@[i as int]@,
        ));
        i = i + 1;
    }
    assert(views(in_progress@).subrange(0, i as int) =~= views(in_progress@));
    let ghost prev = v@;
    v.push(String::from_str(source_dir));
    assert(views(v@) =~= views(prev).push(source_dir@));
    Ok(v)
}

/// Where a dependency's builds for a profile are kept.
pub open spec fn dep_build_dir(source_dir: Seq<char>, profile: Seq<char>) -> Seq<char> {
    join_path(join_path(source_dir, "_crow_build"@), profile)
}

pub fn dependency_build_dir(source_dir: &str, profile: &str) -> (r: String)
    ensures
        r@ == dep_build_dir(source_dir@, profile@),
{
    let a = path_join(source_dir, "_crow_build");
    path_join(a.as_str(), profile)
}

/// The include paths a dependency exposes: its root, and its `include`
/// directory where it has one.
pub open spec fn exposed_includes(has_include_dir: bool) -> Seq<Seq<char>> {
    if has_include_dir {
        seq!["."@, "include"@]
    } else {
        seq!["."@]
    }
}

fn default_includes(has_include_dir: bool) -> (r: Vec<String>)
    ensures
        views(r@) == exposed_includes(has_include_dir),
{
    let mut v: Vec<String> = Vec::new();
    v.push(String::from_str("."));
    if has_include_dir {
        v.push(String::from_str("include"));
    }
    assert(views(v@) =~= exposed_includes(has_include_dir));
    v
}

/// What is built for a dependency whose library was not found.
#[derive(Debug)]
pub enum DependencyBuild {
    /// Build the dependency's own manifest with this orchestrator,
    /// producing `output_type`.
    Native { manifest: String, output_type: OutputType },
    /// Configure and build with the external generator.
    Foreign,
}

/// The decision for one dependency once its sources are in place.
#[derive(Debug)]
pub enum DependencyStep {
    /// A build for this profile exists: use it, build nothing.
    Reuse(DependencyBuildOutput),
    /// Build it.
    Build(DependencyBuild),
}

/// Decides whether a dependency must be built. `found_library` is the
/// library the per-profile build directory already holds, if any;
/// `manifest_exists` whether the sources carry a manifest;
/// `has_include_dir` whether they have an `include` directory.
pub fn dependency_step(
    name: &str,
    source_dir: &str,
    build: &CrowDependencyBuild,
    found_library: Option<&str>,
    manifest_exists: bool,
    has_include_dir: bool,
) -> (r: Result<DependencyStep, DependencyError>)
    ensures
        step_outcome(
            name@,
            *build,
            match found_library {
                Some(l) => Some(l@),
                None => None,
            },
            has_include_dir,
            r,
        ),
        found_library is None ==> match build.build_system {
            None => r matches Err(DependencyError::NotInferred { name: n }) && n@ == name@,
            Some(BuildSystemType::Crow) => if manifest_exists {
                r matches Ok(DependencyStep::Build(DependencyBuild::Native { manifest, output_type }))
                    && manifest@ == join_path(source_dir@, MANIFEST_FILE@) && output_type
                    == build.output_type
            } else {
                r matches Err(DependencyError::MissingManifest { name: n }) && n@ == name@
            },
            Some(BuildSystemType::Cmake) => r matches Ok(DependencyStep::Build(DependencyBuild::Foreign)),
        },
{
    match found_library {
        Some(lib) => Ok(
            DependencyStep::Reuse(
                DependencyBuildOutput {
                    lib_name: String::from_str(build.lib_name.as_str()),
                    library_path: String::from_str(lib),
                    library_dir: parent_path(lib),
                    include_paths: default_includes(has_include_dir),
                },
            ),
        ),
        None => match build.build_system {
            None => Err(DependencyError::NotInferred { name: String::from_str(name) }),
            Some(BuildSystemType::Crow) => {
                if manifest_exists {
                    Ok(
                        DependencyStep::Build(
                            DependencyBuild::Native {
                                manifest: path_join(source_dir, MANIFEST_FILE),
                                output_type: build.output_type,
                            },
                        ),
                    )
                } else {
                    Err(DependencyError::MissingManifest { name: String::from_str(name) })
                }
            },
            Some(BuildSystemType::Cmake) => Ok(DependencyStep::Build(DependencyBuild::Foreign)),
        },
    }
}

/// The build output of a foreign build, from the library found in its
/// build directory afterwards (`None`: nothing was found there).
pub fn foreign_build_output(
    name: &str,
    build: &CrowDependencyBuild,
    build_dir: &str,
    found_library: Option<&str>,
    has_include_dir: bool,
) -> (r: Result<DependencyBuildOutput, DependencyError>)
    ensures
        match found_library {
            Some(lib) => r matches Ok(o) && {
                &&& o.lib_name@ == build.lib_name@
                &&& o.library_path@ == lib@
                &&& o.library_dir@ == parent_of(lib@)
                &&& views(o.include_paths@) == exposed_includes(has_include_dir)
            },
            None => r matches Err(DependencyError::LibraryNotFound { name: n, dir }) && n@ == name@
                && dir@ == build_dir@,
        },
{
    match found_library {
        Some(lib) => Ok(
            DependencyBuildOutput {
                lib_name: String::from_str(build.lib_name.as_str()),
                library_path: String::from_str(lib),
                library_dir: parent_path(lib),
                include_paths: default_includes(has_include_dir),
            },
        ),
        None => Err(
            DependencyError::LibraryNotFound {
                name: String::from_str(name),
                dir: String::from_str(build_dir),
            },
        ),
    }
}

/// The generator's build type for a profile.
pub open spec fn build_type_of(profile: Seq<char>) -> Seq<char> {
    if profile == "release"@ {
        "Release"@
    } else {
        "Debug"@
    }
}

/// The header that includes each precompiled header: one
/// `#include <h>` line per header, in order.
pub open spec fn pch_text(headers: Seq<Seq<char>>) -> Seq<char>
    decreases headers.len(),
{
    if headers.len() == 0 {
        Seq::empty()
    } else {
        pch_text(headers.drop_last()) + "#include <"@ + headers.last() + ">\n"@
    }
}

/// The compiler flags handed to a foreign build: the optimisation level,
/// the LTO switch, and the precompiled header where there is one, joined
/// by spaces.
pub open spec fn foreign_cxx_flags(profile: BuildProfile, pch_file: Option<Seq<char>>) -> Seq<char> {
    "-O"@ + decimal(profile.opt_level as nat) + (if profile.lto {
        " -flto"@
    } else {
        Seq::empty()
    }) + match pch_file {
        Some(f) => " -include "@ + f,
        None => Seq::empty(),
    }
}

/// Appends one string.
fn push_one(out: &mut Vec<String>, s: String)
    ensures
        views(final(out)@) == views(old(out)@).push(s@),
{
    out.push(s);
    assert(views(final(out)@) =~= views(old(out)@).push(s@));
}

/// The arguments of the generator's configure step.
pub open spec fn configure_args(
    source_dir: Seq<char>,
    build_dir: Seq<char>,
    build_type: Seq<char>,
    compiler: Seq<char>,
    cxx_flags: Seq<char>,
    options: Seq<Seq<char>>,
) -> Seq<Seq<char>> {
    seq![
        "-S"@,
        source_dir,
        "-B"@,
        build_dir,
        "-DCMAKE_BUILD_TYPE="@ + build_type,
        "-DCMAKE_CXX_COMPILER="@ + compiler,
        "-DCMAKE_CXX_FLAGS="@ + cxx_flags,
        "-DCMAKE_DEBUG_POSTFIX="@,
        "-DBUILD_TESTING=OFF"@,
        "-DCMAKE_MSVC_RUNTIME_LIBRARY='MultiThreaded'"@,
        "-DCMAKE_DISABLE_TESTING=ON"@,
    ] + options
}

/// A dependency built by an external generator-based build system: the
/// commands of its configure and build steps and of its precompiled header.
pub struct CmakeDependency;

impl CmakeDependency {
    /// The generator's build type for a profile.
    pub fn build_type(profile: &str) -> (r: String)
        ensures
            r@ == build_type_of(profile@),
    {
        if str_eq(profile, "release") {
            String::from_str("Release")
        } else {
            String::from_str("Debug")
        }
    }

    /// The header that pulls in each header to precompile.
    pub fn pch_content(headers: &Vec<String>) -> (r: String)
        ensures
            r@ == pch_text(views(headers@)),
    {
        let mut r = String::new();
        let mut i: usize = 0;
        assert(views(headers@).subrange(0, 0) =~= Seq::<Seq<char>>::empty());
        while i < headers.len()
            invariant
                i <= headers@.len(),
                r@ == pch_text(views(headers@).subrange(0, i as int)),
            decreases headers@.len() - i,
        {
            r.append("#include <");
            r.append(headers[i].as_str());
            r.append(">\n");
            proof {
                let pre = views(headers@).subrange(0, i + 1);
                assert(pre.drop_last() =~= views(headers@).subrange(0, i as int));
                assert(pre.last() == headers@[i as int]@);
            }
            i = i + 1;
        }
        assert(views(headers@).subrange(0, i as int) =~= views(headers@));
        r
    }

    /// The compiler flags handed to the generator.
    pub fn cxx_flags(profile: &BuildProfile, pch_file: Option<&str>) -> (r: String)
        ensures
            r@ == foreign_cxx_flags(*profile, match pch_file {
                Some(f) => Some(f@),
                None => None,
            }),
    {
        let lvl = decimal_string(profile.opt_level);
        let mut r = join2("-O", lvl.as_str());
        if profile.lto {
            r.append(" -flto");
        }
        match pch_file {
            Some(f) => {
                r.append(" -include ");
                r.append(f);
            },
            None => {},
        }
        r
    }

    /// The arguments of the configure step.
    pub fn configure_args(
        source_dir: &str,
        build_dir: &str,
        build_type: &str,
        compiler: &str,
        cxx_flags: &str,
        options: &Vec<String>,
    ) -> (r: Vec<String>)
        ensures
            views(r@) == configure_args(source_dir@, build_dir@, build_type@, compiler@, cxx_flags@, views(options@)),
    {
        let mut a: Vec<String> = Vec::new();
        push_one(&mut a, String::from_str("-S"));
        push_one(&mut a, String::from_str(source_dir));
        push_one(&mut a, String::from_str("-B"));
        push_one(&mut a, String::from_str(build_dir));
        push_one(&mut a, join2("-DCMAKE_BUILD_TYPE=", build_type));
        push_one(&mut a, join2("-DCMAKE_CXX_COMPILER=", compiler));
        push_one(&mut a, join2("-DCMAKE_CXX_FLAGS=", cxx_flags));
        push_one(&mut a, String::from_str("-DCMAKE_DEBUG_POSTFIX="));
        push_one(&mut a, String::from_str("-DBUILD_TESTING=OFF"));
        push_one(&mut a, String::from_str("-DCMAKE_MSVC_RUNTIME_LIBRARY='MultiThreaded'"));
        push_one(&mut a, String::from_str("-DCMAKE_DISABLE_TESTING=ON"));
        let ghost base = views(a@);
        let mut i: usize = 0;
        while i < options.len()
            invariant
                i <= options@.len(),
                views(a@) == base + views(options@).subrange(0, i as int),
            decreases options@.len() - i,
        {
            push_one(&mut a, String::from_str(options[i].as_str()));
            assert(views(options@).subrange(0, i + 1) =~= views(options@).subrange(0, i as int).push(
                options@[i as int]@,
            ));
            i = i + 1;
        }
        assert(views(options@).subrange(0, i as int) =~= views(options@));
        assert(views(a@) =~= configure_args(source_dir@, build_dir@, build_type@, compiler@, cxx_flags@, views(options@)));
        a
    }

    /// The arguments of the build step.
    pub fn build_args(build_dir: &str, build_type: &str) -> (r: Vec<String>)
        ensures
            views(r@) == seq!["--build"@, build_dir@, "--config"@, build_type@],
    {
        let mut a: Vec<String> = Vec::new();
        push_one(&mut a, String::from_str("--build"));
        push_one(&mut a, String::from_str(build_dir));
        push_one(&mut a, String::from_str("--config"));
        push_one(&mut a, String::from_str(build_type));
        assert(views(a@) =~= seq!["--build"@, build_dir@, "--config"@, build_type@]);
        a
    }

    /// The compiler arguments that precompile the generated header.
    pub fn pch_compile_args(pch_file: &str, pch_output: &str, profile: &BuildProfile) -> (r: Vec<String>)
        ensures
            views(r@) == seq![
                "-x"@,
                "c++-header"@,
                pch_file@,
                "-o"@,
                pch_output@,
                "-std=c++17"@,
                "-O"@ + decimal(profile.opt_level as nat),
            ],
    {
        let mut a: Vec<String> = Vec::new();
        push_one(&mut a, String::from_str("-x"));
        push_one(&mut a, String::from_str("c++-header"));
        push_one(&mut a, String::from_str(pch_file));
        push_one(&mut a, String::from_str("-o"));
        push_one(&mut a, String::from_str(pch_output));
        push_one(&mut a, String::from_str("-std=c++17"));
        let lvl = decimal_string(profile.opt_level);
        push_one(&mut a, join2("-O", lvl.as_str()));
        assert(views(a@) =~= seq![
            "-x"@,
            "c++-header"@,
            pch_file@,
            "-o"@,
            pch_output@,
            "-std=c++17"@,
            "-O"@ + decimal(profile.opt_level as nat),
        ]);
        a
    }
}

/// Dependency cache reuse: on a second build with the same profile, a
/// dependency whose library the first build left in its per-profile build
/// directory is reused and not built again; a repository already cloned
/// is not cloned again, and a local directory outside the global cache is
/// not copied.
pub proof fn lemma_second_resolution_reuses(
    dep: Dependency,
    plan: Result<FetchPlan, DependencyError>,
    step: Result<DependencyStep, DependencyError>,
    name: Seq<char>,
    deps_dir: Seq<char>,
    global_deps: bool,
    local_path_exists: bool,
    build: CrowDependencyBuild,
    lib: Seq<char>,
    has_include_dir: bool,
)
    requires
        fetch_outcome(name, dep, deps_dir, true, local_path_exists, global_deps, plan),
        step_outcome(name, build, Some(lib), has_include_dir, step),
    ensures
        step matches Ok(DependencyStep::Reuse(_)),
        dep is Git ==> (plan matches Ok(p) && p.action is Pull),
        dep is Path && local_path_exists && !global_deps ==> (plan matches Ok(p) && p.action is UseLocal),
{
}

/// What `plan_fetch` promises of its result.
pub open spec fn fetch_outcome(
    name: Seq<char>,
    dep: Dependency,
    deps_dir: Seq<char>,
    cached_copy_exists: bool,
    local_path_exists: bool,
    global_deps: bool,
    r: Result<FetchPlan, DependencyError>,
) -> bool {
    match dep {
        Dependency::Git { git, branch, .. } => match r {
            Ok(p) => p.source_dir@ == join_path(deps_dir, name) && if cached_copy_exists {
                match p.action {
                    FetchAction::Pull { dest } => dest@ == p.source_dir@,
                    _ => false,
                }
            } else {
                match p.action {
                    FetchAction::Clone { url, branch: b, dest } => url@ == git@ && b@ == branch@
                        && dest@ == p.source_dir@,
                    _ => false,
                }
            },
            Err(_) => false,
        },
        Dependency::Path { path, .. } => if !local_path_exists {
            match r {
                Err(DependencyError::MissingPath { name: n, path: q }) => n@ == name && q@ == path@,
                _ => false,
            }
        } else if global_deps {
            match r {
                Ok(p) => p.source_dir@ == join_path(deps_dir, name) && match p.action {
                    FetchAction::CopyToCache { from, to } => from@ == path@ && to@ == p.source_dir@,
                    _ => false,
                },
                Err(_) => false,
            }
        } else {
            match r {
                Ok(p) => p.source_dir@ == path@ && p.action is UseLocal,
                Err(_) => false,
            }
        },
    }
}

/// What `dependency_step` promises of its result where a library was found.
pub open spec fn step_outcome(
    name: Seq<char>,
    build: CrowDependencyBuild,
    found_library: Option<Seq<char>>,
    has_include_dir: bool,
    r: Result<DependencyStep, DependencyError>,
) -> bool {
    match found_library {
        Some(lib) => r matches Ok(DependencyStep::Reuse(o)) && {
            &&& o.lib_name@ == build.lib_name@
            &&& o.library_path@ == lib
            &&& o.library_dir@ == parent_of(lib)
            &&& views(o.include_paths@) == exposed_includes(has_include_dir)
        },
        None => true,
    }
}

} // verus!
