//! The build orchestrator's own state and steps: the resolved
//! configuration of one build, the compiler invocation for each source,
//! the link or archive step, and the nested build of a native dependency.

use crate::config::{
    entry_for, BuildProfile, Config, CrowDependencyBuild, HostOs, OutputType, PackageConfig,
    ToolchainConfig,
};
use crate::dependency::{DependencyBuildOutput, ResolvedDependency};
use crate::flags::{convert_args_for_msvc, msvc_args, CompilerFlavor};
use crate::logger::Logger;
use crate::resolve::{
    best_target, hook_plan, package_over, profile_over, resolve_config, toolchain_over, ConfigError,
};
use crate::text::{copy_strings, join2, views};
use crate::toolchain::{
    archive_static_library_args, artifact_file_name, artifact_name, build_compile_args,
    compile_args, join_path, link_args, link_executable_args, link_shared_library_args, object_path,
    object_path_of, path_join,
};
use vstd::prelude::*;
use vstd::string::*;

verus! {

/// One build: the project, its resolved configuration for a profile and
/// host, and its resolved dependencies.
#[derive(Debug)]
pub struct BuildSystem {
    pub config: Config,
    pub toolchain: ToolchainConfig,
    pub profile_config: BuildProfile,
    pub package_config: PackageConfig,
    pub profile_name: String,
    pub global_deps: bool,
    pub host: HostOs,
    /// Hook commands resolution requires, in the order they run.
    pub hooks: Vec<String>,
    pub dependencies: Vec<ResolvedDependency>,
    pub logger: Logger,
}

/// The final step of a build: the tool to run, its arguments, the
/// artifact it produces, and whether that artifact is made executable.
#[derive(Debug)]
pub struct ArtifactStep {
    pub tool: String,
    pub args: Vec<String>,
    pub artifact: String,
    pub make_executable: bool,
}

impl BuildSystem {
    /// Resolves `config` for `profile_name` on the host `os_name`/`arch`
    /// (whose file conventions are those of `host`). Fails exactly when
    /// the profile is not declared. Dependencies are added afterwards, as
    /// they are resolved.
    pub fn new(
        config: Config,
        profile_name: &str,
        os_name: &str,
        arch: &str,
        host: HostOs,
        global_deps: bool,
        logger: Logger,
    ) -> (r: Result<Self, ConfigError>)
        requires
            config.wf(),
        ensures
            entry_for(config.profiles@, profile_name@) is None <==> r is Err,
            r matches Ok(b) ==> {
                let t = best_target(config.targets@, os_name@, arch@);
                &&& package_over(config.package, t, b.package_config)
                &&& toolchain_over(config.toolchain, t, b.toolchain)
                &&& profile_over(entry_for(config.profiles@, profile_name@).unwrap(), t, b.profile_config)
                &&& views(b.hooks@) == hook_plan(config.toolchain.hooks, t)
                &&& b.profile_name@ == profile_name@
                &&& b.global_deps == global_deps
                &&& b.host == host
                &&& b.dependencies@.len() == 0
                &&& b.logger == logger
                &&& b.config == config
            },
    {
        let resolved = resolve_config(&config, profile_name, os_name, arch);
        match resolved {
            Err(e) => Err(e),
            Ok(res) => Ok(
                BuildSystem {
                    config,
                    toolchain: res.toolchain,
                    profile_config: res.profile,
                    package_config: res.package,
                    profile_name: String::from_str(profile_name),
                    global_deps,
                    host,
                    hooks: res.hooks,
                    dependencies: Vec::new(),
                    logger,
                },
            ),
        }
    }

    /// Records a resolved dependency; dependencies keep the order in
    /// which they were added.
    pub fn add_dependency(&mut self, dep: ResolvedDependency)
        ensures
            final(self).dependencies@ == old(self).dependencies@.push(dep),
            final(self).package_config == old(self).package_config,
            final(self).toolchain == old(self).toolchain,
            final(self).profile_config == old(self).profile_config,
            final(self).host == old(self).host,
    {
        self.dependencies.push(dep);
    }

    /// The object file a source compiles to in `build_dir`.
    pub fn object_for(&self, build_dir: &str, source: &str) -> (r: String)
        ensures
            r@ == object_path_of(build_dir@, source@),
    {
        object_path(build_dir, source)
    }

    /// The baseline compiler arguments for one source.
    pub fn build_compile_args(&self, source: &str, output: &str) -> (r: Vec<String>)
        ensures
            views(r@) == compile_args(
                self.toolchain,
                self.profile_config,
                self.package_config,
                self.dependencies@,
                source@,
                output@,
            ),
    {
        build_compile_args(
            &self.toolchain,
            &self.profile_config,
            &self.package_config,
            &self.dependencies,
            source,
            output,
        )
    }

    /// The compiler arguments for one source in the syntax of the
    /// compiler's flavour.
    pub fn compiler_args(&self, flavor: CompilerFlavor, source: &str, output: &str) -> (r: Vec<String>)
        ensures
            views(r@) == ({
                let base = compile_args(
                    self.toolchain,
                    self.profile_config,
                    self.package_config,
                    self.dependencies@,
                    source@,
                    output@,
                );
                if flavor == CompilerFlavor::MsvcLike {
                    msvc_args(base, output@)
                } else {
                    base
                }
            }),
    {
        let args = self.build_compile_args(source, output);
        match flavor {
            CompilerFlavor::MsvcLike => convert_args_for_msvc(&args, output),
            CompilerFlavor::GnuLike => args,
        }
    }

    /// The link or archive step once every object exists: an executable
    /// is linked and made executable, a static library archived, a shared
    /// library linked as one, into `build_dir` under the platform's name.
    pub fn build(&self, build_dir: &str, objects: &Vec<String>) -> (r: ArtifactStep)
        ensures
            r.artifact@ == join_path(build_dir@, artifact_name(self.package_config.name@, self.package_config.output_type, self.host)),
            r.make_executable == (self.package_config.output_type == OutputType::Executable),
            match self.package_config.output_type {
                OutputType::Executable => r.tool@ == self.toolchain.linker@ && views(r.args@) == link_args(
                    self.toolchain,
                    self.profile_config,
                    self.package_config,
                    self.dependencies@,
                    views(objects@),
                    r.artifact@,
                    false,
                ),
                OutputType::SharedLib => r.tool@ == self.toolchain.linker@ && views(r.args@) == link_args(
                    self.toolchain,
                    self.profile_config,
                    self.package_config,
                    self.dependencies@,
                    views(objects@),
                    r.artifact@,
                    true,
                ),
                OutputType::StaticLib => r.tool@ == self.toolchain.archiver@ && views(r.args@) == views(
                    self.toolchain.archiver_flags@,
                ) + seq![r.artifact@] + views(objects@),
            },
    {
        let name = artifact_file_name(
            self.package_config.name.as_str(),
            self.package_config.output_type,
            self.host,
        );
        let artifact = path_join(build_dir, name.as_str());
        match self.package_config.output_type {
            OutputType::Executable => {
                let args = link_executable_args(
                    &self.toolchain,
                    &self.profile_config,
                    &self.package_config,
                    &self.dependencies,
                    objects,
                    artifact.as_str(),
                );
                ArtifactStep {
                    tool: String::from_str(self.toolchain.linker.as_str()),
                    args,
                    artifact,
                    make_executable: true,
                }
            },
            OutputType::SharedLib => {
                let args = link_shared_library_args(
                    &self.toolchain,
                    &self.profile_config,
                    &self.package_config,
                    &self.dependencies,
                    objects,
                    artifact.as_str(),
                );
                ArtifactStep {
                    tool: String::from_str(self.toolchain.linker.as_str()),
                    args,
                    artifact,
                    make_executable: false,
                }
            },
            OutputType::StaticLib => {
                let args = archive_static_library_args(&self.toolchain, objects, artifact.as_str());
                ArtifactStep {
                    tool: String::from_str(self.toolchain.archiver.as_str()),
                    args,
                    artifact,
                    make_executable: false,
                }
            },
        }
    }

    /// What this build offers a consumer when it is itself a dependency:
    /// the package's name as library name, the artifact and its directory
    /// below `cwd`, and the package's include paths.
    pub fn build_output(&self, cwd: &str, build_dir: &str, artifact: &str) -> (r: DependencyBuildOutput)
        ensures
            r.lib_name@ == self.package_config.name@,
            r.library_path@ == join_path(cwd@, artifact@),
            r.library_dir@ == join_path(cwd@, build_dir@),
            views(r.include_paths@) == views(self.package_config.includes@),
    {
        DependencyBuildOutput {
            lib_name: String::from_str(self.package_config.name.as_str()),
            library_path: path_join(cwd, artifact),
            library_dir: path_join(cwd, build_dir),
            include_paths: copy_strings(&self.package_config.includes),
        }
    }
}

/// Where an incremental build keeps its objects and its cache file.
#[derive(Debug)]
pub struct IncrementalBuilder {
    pub build_dir: String,
    pub cache_path: String,
}

impl IncrementalBuilder {
    /// The per-profile build directory below `build_root`, and the cache
    /// file in it, named after the profile.
    pub fn new(build_root: &str, profile_name: &str) -> (r: Self)
        ensures
            r.build_dir@ == join_path(build_root@, profile_name@),
            r.cache_path@ == join_path(r.build_dir@, "crow-"@ + profile_name@ + ".cache"@),
    {
        let build_dir = path_join(build_root, profile_name);
        let a = join2("crow-", profile_name);
        let file = join2(a.as_str(), ".cache");
        let cache_path = path_join(build_dir.as_str(), file.as_str());
        IncrementalBuilder { build_dir, cache_path }
    }
}

/// A dependency built by this orchestrator from its own manifest.
pub struct CrowDependency;

/// The nested build a native dependency needs.
#[derive(Debug)]
pub struct NestedBuild {
    /// The dependency's package, with the output kind asked for.
    pub package: PackageConfig,
    /// Parallel jobs for it: a single one.
    pub jobs: usize,
}

impl CrowDependency {
    /// The nested build of a native dependency: its own package, producing
    /// the output kind its build description asks for, with one job.
    pub fn build(dep_config: &Config, build: &CrowDependencyBuild) -> (r: NestedBuild)
        ensures
            r.jobs == 1,
            r.package.output_type == build.output_type,
            r.package.name@ == dep_config.package.name@,
            r.package.version@ == dep_config.package.version@,
            views(r.package.sources@) == views(dep_config.package.sources@),
            views(r.package.includes@) == views(dep_config.package.includes@),
            views(r.package.libs@) == views(dep_config.package.libs@),
            views(r.package.lib_dirs@) == views(dep_config.package.lib_dirs@),
    {
        let mut package = dep_config.package.copy();
        package.output_type = build.output_type;
        NestedBuild { package, jobs: 1 }
    }
}

} // verus!
