//! The project configuration model: package, toolchain, profiles,
//! per-platform targets and dependencies, with their defaults and the
//! merge of a target's overrides into the base.

use crate::text::{
    keys_distinct, keys_unique, position_of, copy_opt_strings, copy_strings, opt_views, pick_string,
    pick_strings, str_eq, views,
};
use vstd::prelude::*;
use vstd::string::*;

verus! {

/// The kind of artifact a package produces.
#[derive(Clone, Copy, Debug, PartialEq, Eq, Structural)]
pub enum OutputType {
    Executable,
    StaticLib,
    SharedLib,
}

impl Default for OutputType {
    fn default() -> (r: Self)
        ensures
            r == OutputType::Executable,
    {
        OutputType::Executable
    }
}

/// How a dependency is built: by this orchestrator itself, or by an
/// external generator-based build system.
#[derive(Clone, Copy, Debug, PartialEq, Eq, Structural)]
pub enum BuildSystemType {
    Crow,
    Cmake,
}

/// The operating-system family that decides file naming and defaults.
#[derive(Clone, Copy, Debug, PartialEq, Eq, Structural)]
pub enum HostOs {
    Windows,
    MacOs,
    OtherUnix,
}

/// Name of the manifest a self-describing project carries at its root.
pub const MANIFEST_FILE: &'static str = "crow.toml";

/// Marker for a dependency library name that is still to be inferred.
pub const LIB_NAME_PLACEHOLDER: &'static str = "__INFER_LIB_NAME__";

/// Commands run before and after a configuration step.
#[derive(Debug)]
pub struct ToolchainHooks {
    pub pre_execute: Option<Vec<String>>,
    pub post_execute: Option<Vec<String>>,
}

impl ToolchainHooks {
    pub open spec fn same(&self, o: &Self) -> bool {
        opt_views(self.pre_execute) == opt_views(o.pre_execute) && opt_views(self.post_execute)
            == opt_views(o.post_execute)
    }

    /// Hooks with no commands.
    pub fn none() -> (r: Self)
        ensures
            r.pre_execute.is_none(),
            r.post_execute.is_none(),
    {
        ToolchainHooks { pre_execute: None, post_execute: None }
    }

    pub fn copy(&self) -> (r: Self)
        ensures
            r.same(self),
    {
        ToolchainHooks {
            pre_execute: copy_opt_strings(&self.pre_execute),
            post_execute: copy_opt_strings(&self.post_execute),
        }
    }
}

/// Package-level settings.
#[derive(Debug)]
pub struct PackageConfig {
    pub name: String,
    pub version: String,
    pub output_type: OutputType,
    pub sources: Vec<String>,
    pub includes: Vec<String>,
    pub libs: Vec<String>,
    pub lib_dirs: Vec<String>,
}

impl PackageConfig {
    pub open spec fn same(&self, o: &Self) -> bool {
        &&& self.name@ == o.name@
        &&& self.version@ == o.version@
        &&& self.output_type == o.output_type
        &&& views(self.sources@) == views(o.sources@)
        &&& views(self.includes@) == views(o.includes@)
        &&& views(self.libs@) == views(o.libs@)
        &&& views(self.lib_dirs@) == views(o.lib_dirs@)
    }

    pub fn copy(&self) -> (r: Self)
        ensures
            r.same(self),
    {
        PackageConfig {
            name: String::from_str(self.name.as_str()),
            version: String::from_str(self.version.as_str()),
            output_type: self.output_type,
            sources: copy_strings(&self.sources),
            includes: copy_strings(&self.includes),
            libs: copy_strings(&self.libs),
            lib_dirs: copy_strings(&self.lib_dirs),
        }
    }

    /// Source patterns used when none are configured.
    pub fn default_sources() -> (r: Vec<String>)
        ensures
            views(r@) == seq!["src/**/*.cpp"@, "src/**/*.c"@],
    {
        let r = vec![String::from_str("src/**/*.cpp"), String::from_str("src/**/*.c")];
        assert(views(r@) =~= seq!["src/**/*.cpp"@, "src/**/*.c"@]);
        r
    }

    /// Include directories used when none are configured.
    pub fn default_includes() -> (r: Vec<String>)
        ensures
            views(r@) == seq!["include/"@],
    {
        let r = vec![String::from_str("include/")];
        assert(views(r@) =~= seq!["include/"@]);
        r
    }
}

impl Default for PackageConfig {
    fn default() -> (r: Self)
        ensures
            r.name@ == Seq::<char>::empty(),
            r.version@ == Seq::<char>::empty(),
            r.output_type == OutputType::Executable,
            views(r.sources@) == seq!["src/**/*.cpp"@, "src/**/*.c"@],
            views(r.includes@) == seq!["include/"@],
            r.libs@.len() == 0,
            r.lib_dirs@.len() == 0,
    {
        PackageConfig {
            name: String::new(),
            version: String::new(),
            output_type: OutputType::Executable,
            sources: Self::default_sources(),
            includes: Self::default_includes(),
            libs: Vec::new(),
            lib_dirs: Vec::new(),
        }
    }
}

/// The compiler, linker and archiver with their flags.
#[derive(Debug)]
pub struct ToolchainConfig {
    pub compiler: String,
    pub compiler_flags: Vec<String>,
    pub linker: String,
    pub linker_flags: Vec<String>,
    pub archiver: String,
    pub archiver_flags: Vec<String>,
    pub hooks: ToolchainHooks,
}

/// Optional replacements for the toolchain's fields.
#[derive(Debug)]
pub struct ToolchainOverride {
    pub compiler: Option<String>,
    pub compiler_flags: Option<Vec<String>>,
    pub linker: Option<String>,
    pub linker_flags: Option<Vec<String>>,
    pub archiver: Option<String>,
    pub archiver_flags: Option<Vec<String>>,
    pub hooks: ToolchainHooks,
}

/// `o`'s value where it is set, else `base`.
pub open spec fn over(o: Option<String>, base: String) -> Seq<char> {
    match o {
        Some(s) => s@,
        None => base@,
    }
}

/// `o`'s list where it is set, else `base`.
pub open spec fn over_all(o: Option<Vec<String>>, base: Vec<String>) -> Seq<Seq<char>> {
    match o {
        Some(v) => views(v@),
        None => views(base@),
    }
}

/// `o`'s hooks where they are set, else `base`.
pub open spec fn over_hooks(o: Option<Vec<String>>, base: Option<Vec<String>>) -> Option<
    Seq<Seq<char>>,
> {
    match o {
        Some(v) => Some(views(v@)),
        None => opt_views(base),
    }
}

impl ToolchainConfig {
    pub open spec fn same(&self, o: &Self) -> bool {
        &&& self.compiler@ == o.compiler@
        &&& views(self.compiler_flags@) == views(o.compiler_flags@)
        &&& self.linker@ == o.linker@
        &&& views(self.linker_flags@) == views(o.linker_flags@)
        &&& self.archiver@ == o.archiver@
        &&& views(self.archiver_flags@) == views(o.archiver_flags@)
        &&& self.hooks.same(&o.hooks)
    }

    /// This toolchain with the fields `ov` sets replaced.
    pub open spec fn overridden_by(&self, ov: &ToolchainOverride, r: &Self) -> bool {
        &&& r.compiler@ == over(ov.compiler, self.compiler)
        &&& views(r.compiler_flags@) == over_all(ov.compiler_flags, self.compiler_flags)
        &&& r.linker@ == over(ov.linker, self.linker)
        &&& views(r.linker_flags@) == over_all(ov.linker_flags, self.linker_flags)
        &&& r.archiver@ == over(ov.archiver, self.archiver)
        &&& views(r.archiver_flags@) == over_all(ov.archiver_flags, self.archiver_flags)
    }

    pub fn copy(&self) -> (r: Self)
        ensures
            r.same(self),
    {
        ToolchainConfig {
            compiler: String::from_str(self.compiler.as_str()),
            compiler_flags: copy_strings(&self.compiler_flags),
            linker: String::from_str(self.linker.as_str()),
            linker_flags: copy_strings(&self.linker_flags),
            archiver: String::from_str(self.archiver.as_str()),
            archiver_flags: copy_strings(&self.archiver_flags),
            hooks: self.hooks.copy(),
        }
    }

    /// The archiver used when none is configured.
    pub fn default_archiver(os: HostOs) -> (r: String)
        ensures
            r@ == (if os == HostOs::Windows {
                "lib.exe"@
            } else {
                "ar"@
            }),
    {
        if os == HostOs::Windows {
            String::from_str("lib.exe")
        } else {
            String::from_str("ar")
        }
    }

    /// The archiver flags used when none are configured.
    pub fn default_archiver_flags(os: HostOs) -> (r: Vec<String>)
        ensures
            views(r@) == (if os == HostOs::Windows {
                Seq::<Seq<char>>::empty()
            } else {
                seq!["rcs"@]
            }),
    {
        if os == HostOs::Windows {
            let r: Vec<String> = Vec::new();
            assert(views(r@) =~= Seq::<Seq<char>>::empty());
            r
        } else {
            let r = vec![String::from_str("rcs")];
            assert(views(r@) =~= seq!["rcs"@]);
            r
        }
    }

    /// The compiler flags used when none are configured.
    pub fn default_compiler_flags() -> (r: Vec<String>)
        ensures
            views(r@) == seq!["-std=c++17"@],
    {
        let r = vec![String::from_str("-std=c++17")];
        assert(views(r@) =~= seq!["-std=c++17"@]);
        r
    }

    /// The linker flags used when none are configured.
    pub fn default_linker_flags() -> (r: Vec<String>)
        ensures
            views(r@) == seq!["-lstdc++"@],
    {
        let r = vec![String::from_str("-lstdc++")];
        assert(views(r@) =~= seq!["-lstdc++"@]);
        r
    }

    /// The default toolchain around a compiler/linker pair found on the host.
    pub fn with_compiler(compiler: &str, linker: &str, os: HostOs) -> (r: Self)
        ensures
            r.compiler@ == compiler@,
            r.linker@ == linker@,
            views(r.compiler_flags@) == seq!["-std=c++17"@],
            views(r.linker_flags@) == seq!["-lstdc++"@],
            r.archiver@ == (if os == HostOs::Windows {
                "lib.exe"@
            } else {
                "ar"@
            }),
            views(r.archiver_flags@) == (if os == HostOs::Windows {
                Seq::<Seq<char>>::empty()
            } else {
                seq!["rcs"@]
            }),
            r.hooks.pre_execute.is_none(),
            r.hooks.post_execute.is_none(),
    {
        ToolchainConfig {
            compiler: String::from_str(compiler),
            compiler_flags: Self::default_compiler_flags(),
            linker: String::from_str(linker),
            linker_flags: Self::default_linker_flags(),
            archiver: Self::default_archiver(os),
            archiver_flags: Self::default_archiver_flags(os),
            hooks: ToolchainHooks::none(),
        }
    }

    /// This toolchain with a target's override applied: each field the
    /// override sets replaces the base, and so does each hook list.
    pub fn merge(&self, override_config: Option<&ToolchainOverride>) -> (r: Self)
        ensures
            match override_config {
                None => r.same(self),
                Some(ov) => {
                    &&& self.overridden_by(ov, &r)
                    &&& opt_views(r.hooks.pre_execute) == over_hooks(
                        ov.hooks.pre_execute,
                        self.hooks.pre_execute,
                    )
                    &&& opt_views(r.hooks.post_execute) == over_hooks(
                        ov.hooks.post_execute,
                        self.hooks.post_execute,
                    )
                },
            },
    {
        match override_config {
            None => self.copy(),
            Some(ov) => {
                let pre = match &ov.hooks.pre_execute {
                    Some(v) => Some(copy_strings(v)),
                    None => copy_opt_strings(&self.hooks.pre_execute),
                };
                let post = match &ov.hooks.post_execute {
                    Some(v) => Some(copy_strings(v)),
                    None => copy_opt_strings(&self.hooks.post_execute),
                };
                ToolchainConfig {
                    compiler: pick_string(&ov.compiler, &self.compiler),
                    compiler_flags: pick_strings(&ov.compiler_flags, &self.compiler_flags),
                    linker: pick_string(&ov.linker, &self.linker),
                    linker_flags: pick_strings(&ov.linker_flags, &self.linker_flags),
                    archiver: pick_string(&ov.archiver, &self.archiver),
                    archiver_flags: pick_strings(&ov.archiver_flags, &self.archiver_flags),
                    hooks: ToolchainHooks { pre_execute: pre, post_execute: post },
                }
            },
        }
    }
}

/// Per-profile compilation settings.
#[derive(Debug)]
pub struct BuildProfile {
    pub opt_level: u8,
    pub defines: Vec<String>,
    pub lto: bool,
    pub flags: Vec<String>,
    pub incremental: bool,
}

impl BuildProfile {
    pub open spec fn same(&self, o: &Self) -> bool {
        &&& self.opt_level == o.opt_level
        &&& views(self.defines@) == views(o.defines@)
        &&& self.lto == o.lto
        &&& views(self.flags@) == views(o.flags@)
        &&& self.incremental == o.incremental
    }

    /// The settings of the built-in `debug` profile.
    pub open spec fn is_debug_default(&self) -> bool {
        &&& self.opt_level == 0
        &&& views(self.defines@) == seq!["DEBUG"@]
        &&& !self.lto
        &&& views(self.flags@) == seq!["-g"@]
        &&& self.incremental
    }

    /// The settings of the built-in `release` profile.
    pub open spec fn is_release_default(&self) -> bool {
        &&& self.opt_level == 3
        &&& views(self.defines@) == seq!["NDEBUG"@]
        &&& self.lto
        &&& views(self.flags@) == seq!["-O3"@]
        &&& !self.incremental
    }

    pub fn copy(&self) -> (r: Self)
        ensures
            r.same(self),
    {
        BuildProfile {
            opt_level: self.opt_level,
            defines: copy_strings(&self.defines),
            lto: self.lto,
            flags: copy_strings(&self.flags),
            incremental: self.incremental,
        }
    }

    pub fn default_debug() -> (r: Self)
        ensures
            r.is_debug_default(),
    {
        let defines = vec![String::from_str("DEBUG")];
        let flags = vec![String::from_str("-g")];
        assert(views(defines@) =~= seq!["DEBUG"@]);
        assert(views(flags@) =~= seq!["-g"@]);
        BuildProfile { opt_level: 0, defines, lto: false, flags, incremental: true }
    }

    pub fn default_release() -> (r: Self)
        ensures
            r.is_release_default(),
    {
        let defines = vec![String::from_str("NDEBUG")];
        let flags = vec![String::from_str("-O3")];
        assert(views(defines@) =~= seq!["NDEBUG"@]);
        assert(views(flags@) =~= seq!["-O3"@]);
        BuildProfile { opt_level: 3, defines, lto: true, flags, incremental: false }
    }
}

impl Default for BuildProfile {
    fn default() -> (r: Self)
        ensures
            r.is_debug_default(),
    {
        BuildProfile::default_debug()
    }
}

/// Overrides that apply on a given operating system and architecture.
#[derive(Debug)]
pub struct Target {
    pub os: Option<String>,
    pub arch: Option<String>,
    pub os_version: Option<String>,
    pub hooks: ToolchainHooks,
    pub toolchain: Option<ToolchainOverride>,
    pub name: Option<String>,
    pub output_type: Option<OutputType>,
    pub sources: Option<Vec<String>>,
    pub includes: Option<Vec<String>>,
    pub libs: Option<Vec<String>>,
    pub lib_dirs: Option<Vec<String>>,
    pub opt_level: Option<u8>,
    pub defines: Option<Vec<String>>,
    pub lto: Option<bool>,
    pub flags: Option<Vec<String>>,
    pub incremental: Option<bool>,
}

impl Target {
    /// A target that constrains nothing and overrides nothing.
    pub fn empty() -> (r: Self)
        ensures
            r.os.is_none() && r.arch.is_none() && r.toolchain.is_none(),
            r.hooks.pre_execute.is_none() && r.hooks.post_execute.is_none(),
            r.name.is_none() && r.output_type.is_none() && r.sources.is_none(),
            r.includes.is_none() && r.libs.is_none() && r.lib_dirs.is_none(),
            r.opt_level.is_none() && r.defines.is_none() && r.lto.is_none(),
            r.flags.is_none() && r.incremental.is_none(),
    {
        Target {
            os: None,
            arch: None,
            os_version: None,
            hooks: ToolchainHooks::none(),
            toolchain: None,
            name: None,
            output_type: None,
            sources: None,
            includes: None,
            libs: None,
            lib_dirs: None,
            opt_level: None,
            defines: None,
            lto: None,
            flags: None,
            incremental: None,
        }
    }
}

/// How a dependency is to be built once its sources are present.
#[derive(Debug)]
pub struct CrowDependencyBuild {
    pub output_type: OutputType,
    pub build_system: Option<BuildSystemType>,
    pub cmake_options: Vec<String>,
    pub lib_name: String,
    pub pch_headers: Vec<String>,
}

impl CrowDependencyBuild {
    pub open spec fn same(&self, o: &Self) -> bool {
        &&& self.output_type == o.output_type
        &&& self.build_system == o.build_system
        &&& views(self.cmake_options@) == views(o.cmake_options@)
        &&& self.lib_name@ == o.lib_name@
        &&& views(self.pch_headers@) == views(o.pch_headers@)
    }

    pub fn copy(&self) -> (r: Self)
        ensures
            r.same(self),
    {
        CrowDependencyBuild {
            output_type: self.output_type,
            build_system: self.build_system,
            cmake_options: copy_strings(&self.cmake_options),
            lib_name: String::from_str(self.lib_name.as_str()),
            pch_headers: copy_strings(&self.pch_headers),
        }
    }

    pub fn default_output_type() -> (r: OutputType)
        ensures
            r == OutputType::StaticLib,
    {
        OutputType::StaticLib
    }

    pub fn default_lib_name_placeholder() -> (r: String)
        ensures
            r@ == LIB_NAME_PLACEHOLDER@,
    {
        String::from_str(LIB_NAME_PLACEHOLDER)
    }

    /// `self` is what inference makes of a build description with these
    /// fields: the build system is kept if set, else taken from whether a
    /// manifest exists; a placeholder library name becomes `dep_name`.
    pub open spec fn inferred(
        &self,
        output_type: OutputType,
        build_system: Option<BuildSystemType>,
        cmake_options: Seq<Seq<char>>,
        lib_name: Seq<char>,
        pch_headers: Seq<Seq<char>>,
        manifest_exists: bool,
        dep_name: Seq<char>,
    ) -> bool {
        &&& self.output_type == output_type
        &&& views(self.cmake_options@) == cmake_options
        &&& views(self.pch_headers@) == pch_headers
        &&& self.build_system == Some(
            match build_system {
                Some(b) => b,
                None => if manifest_exists {
                    BuildSystemType::Crow
                } else {
                    BuildSystemType::Cmake
                },
            },
        )
        &&& self.lib_name@ == (if lib_name == LIB_NAME_PLACEHOLDER@ {
            dep_name
        } else {
            lib_name
        })
    }

    /// Fills in what was left unset: the build system from whether the
    /// dependency's root holds a manifest, the library name from the
    /// dependency's key. Everything else is kept; with no description at
    /// all the defaults stand in for it.
    pub fn infer_defaults(
        manifest_exists: bool,
        dep_name: &str,
        existing_config: Option<Self>,
    ) -> (r: Self)
        ensures
            match existing_config {
                Some(c) => r.inferred(
                    c.output_type,
                    c.build_system,
                    views(c.cmake_options@),
                    c.lib_name@,
                    views(c.pch_headers@),
                    manifest_exists,
                    dep_name@,
                ),
                None => r.inferred(
                    OutputType::StaticLib,
                    None,
                    Seq::empty(),
                    LIB_NAME_PLACEHOLDER@,
                    Seq::empty(),
                    manifest_exists,
                    dep_name@,
                ),
            },
    {
        let mut config = match existing_config {
            Some(c) => c,
            None => Self::default(),
        };
        if config.build_system.is_none() {
            if manifest_exists {
                config.build_system = Some(BuildSystemType::Crow);
            } else {
                config.build_system = Some(BuildSystemType::Cmake);
            }
        }
        if str_eq(config.lib_name.as_str(), LIB_NAME_PLACEHOLDER) {
            config.lib_name = String::from_str(dep_name);
        }
        config
    }
}

impl Default for CrowDependencyBuild {
    fn default() -> (r: Self)
        ensures
            r.output_type == OutputType::StaticLib,
            r.build_system.is_none(),
            views(r.cmake_options@) == Seq::<Seq<char>>::empty(),
            r.lib_name@ == LIB_NAME_PLACEHOLDER@,
            views(r.pch_headers@) == Seq::<Seq<char>>::empty(),
    {
        let r = CrowDependencyBuild {
            output_type: Self::default_output_type(),
            build_system: None,
            cmake_options: Vec::new(),
            lib_name: Self::default_lib_name_placeholder(),
            pch_headers: Vec::new(),
        };
        assert(views(r.cmake_options@) =~= Seq::<Seq<char>>::empty());
        assert(views(r.pch_headers@) =~= Seq::<Seq<char>>::empty());
        r
    }
}

/// Where a dependency's sources come from.
#[derive(Debug)]
pub enum Dependency {
    /// A repository cloned at `branch` (empty: the default branch).
    Git { git: String, branch: String, build: Option<CrowDependencyBuild> },
    /// A directory on this machine.
    Path { path: String, build: Option<CrowDependencyBuild> },
}

impl Dependency {
    /// The branch used when none is named: the repository's default.
    pub fn default_branch() -> (r: String)
        ensures
            r@ == Seq::<char>::empty(),
    {
        String::new()
    }
}

/// The value of the entry keyed `name`, if there is one.
pub open spec fn entry_for<V>(entries: Seq<(String, V)>, name: Seq<char>) -> Option<V> {
    if exists|i: int| 0 <= i < entries.len() && #[trigger] entries[i].0@ == name {
        Some(entries[choose|i: int| 0 <= i < entries.len() && #[trigger] entries[i].0@ == name].1)
    } else {
        None
    }
}

/// Where keys are unique, the entry at a position with key `name` is the
/// entry for `name`.
pub proof fn lemma_entry_at<V>(entries: Seq<(String, V)>, name: Seq<char>, i: int)
    requires
        keys_unique(entries),
        0 <= i < entries.len(),
        entries[i].0@ == name,
    ensures
        entry_for(entries, name) == Some(entries[i].1),
{
    let j = choose|j: int| 0 <= j < entries.len() && #[trigger] entries[j].0@ == name;
    assert(entries[j].0@ == name);
    if i != j {
        assert(entries[i].0@ != entries[j].0@);
    }
}

/// Where no entry has key `name`, there is no entry for it.
pub proof fn lemma_entry_absent<V>(entries: Seq<(String, V)>, name: Seq<char>)
    requires
        forall|j: int| 0 <= j < entries.len() ==> #[trigger] entries[j].0@ != name,
    ensures
        entry_for(entries, name).is_none(),
{
}

/// Some entry has key `k`.
pub open spec fn has_key<V>(entries: Seq<(String, V)>, k: Seq<char>) -> bool {
    exists|i: int| 0 <= i < entries.len() && #[trigger] entries[i].0@ == k
}

/// The entries given, or none.
pub open spec fn given_entries<V>(o: Option<Vec<(String, V)>>) -> Seq<(String, V)> {
    match o {
        Some(v) => v@,
        None => Seq::empty(),
    }
}

/// A parsed project description.
#[derive(Debug)]
pub struct Config {
    pub package: PackageConfig,
    pub toolchain: ToolchainConfig,
    pub profiles: Vec<(String, BuildProfile)>,
    pub targets: Vec<(String, Target)>,
    pub dependencies: Vec<(String, Dependency)>,
}

/// The configuration for one target and profile, with every override
/// applied.
#[derive(Debug)]
pub struct FinalConfig {
    pub name: String,
    pub version: String,
    pub output_type: OutputType,
    pub sources: Vec<String>,
    pub includes: Vec<String>,
    pub libs: Vec<String>,
    pub lib_dirs: Vec<String>,
    pub opt_level: u8,
    pub defines: Vec<String>,
    pub lto: bool,
    pub flags: Vec<String>,
    pub incremental: bool,
    pub toolchain: ToolchainConfig,
}

/// A target field where the target is present and sets it, else `base`.
pub open spec fn target_str(t: Option<Target>, f: spec_fn(Target) -> Option<String>, base: Seq<char>) -> Seq<char> {
    match t {
        Some(t) => match f(t) {
            Some(s) => s@,
            None => base,
        },
        None => base,
    }
}

/// A target list field where the target is present and sets it, else `base`.
pub open spec fn target_strs(
    t: Option<Target>,
    f: spec_fn(Target) -> Option<Vec<String>>,
    base: Seq<Seq<char>>,
) -> Seq<Seq<char>> {
    match t {
        Some(t) => match f(t) {
            Some(v) => views(v@),
            None => base,
        },
        None => base,
    }
}

/// A plain target field where the target is present and sets it, else `base`.
pub open spec fn target_val<T>(t: Option<Target>, f: spec_fn(Target) -> Option<T>, base: T) -> T {
    match t {
        Some(t) => match f(t) {
            Some(v) => v,
            None => base,
        },
        None => base,
    }
}

impl Config {
    /// Profiles, targets and dependencies are mappings: keys are unique.
    pub open spec fn wf(&self) -> bool {
        &&& keys_unique(self.profiles@)
        &&& keys_unique(self.targets@)
        &&& keys_unique(self.dependencies@)
    }

    /// Whether profiles, targets and dependencies each have unique keys.
    pub fn is_well_formed(&self) -> (r: bool)
        ensures
            r == self.wf(),
    {
        keys_distinct(&self.profiles) && keys_distinct(&self.targets) && keys_distinct(&self.dependencies)
    }

    /// The built-in profiles: `debug`, then `release`.
    pub fn generate_default_profiles_map() -> (r: Vec<(String, BuildProfile)>)
        ensures
            r@.len() == 2,
            r@[0].0@ == "debug"@,
            r@[0].1.is_debug_default(),
            r@[1].0@ == "release"@,
            r@[1].1.is_release_default(),
            keys_unique(r@),
    {
        let mut r: Vec<(String, BuildProfile)> = Vec::new();
        r.push((String::from_str("debug"), BuildProfile::default_debug()));
        r.push((String::from_str("release"), BuildProfile::default_release()));
        proof {
            reveal_strlit("debug");
            reveal_strlit("release");
            assert("debug"@[0] != "release"@[0]);
        }
        r
    }

    /// The profiles of a parsed description, completed with the built-in
    /// `debug` and `release` profiles where they are missing. Profiles the
    /// description gives are kept as they are and in their order.
    pub fn fill_default_profiles(profiles: Option<Vec<(String, BuildProfile)>>) -> (r: Vec<(String, BuildProfile)>)
        ensures
            r@.subrange(0, given_entries(profiles).len() as int) == given_entries(profiles),
            r@.len() == given_entries(profiles).len() + (if has_key(given_entries(profiles), "debug"@) {
                0int
            } else {
                1int
            }) + (if has_key(given_entries(profiles), "release"@) {
                0int
            } else {
                1int
            }),
            !has_key(given_entries(profiles), "debug"@) ==> r@[given_entries(profiles).len() as int].0@
                == "debug"@ && r@[given_entries(profiles).len() as int].1.is_debug_default(),
            !has_key(given_entries(profiles), "release"@) ==> r@[r@.len() - 1].0@ == "release"@
                && r@[r@.len() - 1].1.is_release_default(),
    {
        let mut p = match profiles {
            Some(p) => p,
            None => Vec::new(),
        };
        let ghost given = p@;
        let d = position_of(&p, "debug");
        if d.is_none() {
            p.push((String::from_str("debug"), BuildProfile::default_debug()));
        } else {
            assert(given[d.unwrap() as int].0@ == "debug"@);
        }
        let ghost mid = p@;
        assert(mid.subrange(0, given.len() as int) =~= given);
        let rl = position_of(&p, "release");
        proof {
            reveal_strlit("debug");
            reveal_strlit("release");
            assert("debug"@[0] != "release"@[0]);
        }
        if rl.is_none() {
            proof {
                assert forall|i: int| 0 <= i < given.len() implies #[trigger] given[i].0@ != "release"@ by {
                    assert(mid[i] == given[i]);
                }
            }
            p.push((String::from_str("release"), BuildProfile::default_release()));
        } else {
            proof {
                let k = rl.unwrap() as int;
                if k >= given.len() {
                    assert(false);
                }
                assert(given[k] == mid[k]);
                assert(given[k].0@ == "release"@);
            }
        }
        assert(p@.subrange(0, given.len() as int) =~= given);
        p
    }

    /// The configuration for `target_name` and `profile_name`: each field
    /// the target sets replaces the package's or the profile's; an unknown
    /// profile counts as the built-in debug profile.
    pub fn final_config(&self, target_name: &str, profile_name: &str) -> (r: FinalConfig)
        requires
            self.wf(),
        ensures
            ({
                let t = entry_for(self.targets@, target_name@);
                let p = entry_for(self.profiles@, profile_name@);
                let pkg = self.package;
                &&& r.name@ == target_str(t, |t: Target| t.name, pkg.name@)
                &&& r.version@ == pkg.version@
                &&& r.output_type == target_val(t, |t: Target| t.output_type, pkg.output_type)
                &&& views(r.sources@) == target_strs(t, |t: Target| t.sources, views(pkg.sources@))
                &&& views(r.includes@) == target_strs(t, |t: Target| t.includes, views(pkg.includes@))
                &&& views(r.libs@) == target_strs(t, |t: Target| t.libs, views(pkg.libs@))
                &&& views(r.lib_dirs@) == target_strs(t, |t: Target| t.lib_dirs, views(pkg.lib_dirs@))
                &&& match p {
                    Some(p) => {
                        &&& r.opt_level == target_val(t, |t: Target| t.opt_level, p.opt_level)
                        &&& views(r.defines@) == target_strs(t, |t: Target| t.defines, views(p.defines@))
                        &&& r.lto == target_val(t, |t: Target| t.lto, p.lto)
                        &&& views(r.flags@) == target_strs(t, |t: Target| t.flags, views(p.flags@))
                        &&& r.incremental == target_val(t, |t: Target| t.incremental, p.incremental)
                    },
                    None => {
                        &&& r.opt_level == target_val(t, |t: Target| t.opt_level, 0u8)
                        &&& views(r.defines@) == target_strs(t, |t: Target| t.defines, seq!["DEBUG"@])
                        &&& r.lto == target_val(t, |t: Target| t.lto, false)
                        &&& views(r.flags@) == target_strs(t, |t: Target| t.flags, seq!["-g"@])
                        &&& r.incremental == target_val(t, |t: Target| t.incremental, true)
                    },
                }
                &&& match t {
                    Some(t) => match t.toolchain {
                        Some(ov) => self.toolchain.overridden_by(&ov, &r.toolchain),
                        None => r.toolchain.same(&self.toolchain),
                    },
                    None => r.toolchain.same(&self.toolchain),
                }
            }),
    {
        let ti = position_of(&self.targets, target_name);
        let pi = position_of(&self.profiles, profile_name);
        proof {
            match ti {
                Some(i) => lemma_entry_at(self.targets@, target_name@, i as int),
                None => lemma_entry_absent(self.targets@, target_name@),
            }
            match pi {
                Some(i) => lemma_entry_at(self.profiles@, profile_name@, i as int),
                None => lemma_entry_absent(self.profiles@, profile_name@),
            }
        }
        let profile = match pi {
            Some(i) => self.profiles[i].1.copy(),
            None => BuildProfile::default_debug(),
        };
        let pkg = &self.package;
        match ti {
            None => FinalConfig {
                name: String::from_str(pkg.name.as_str()),
                version: String::from_str(pkg.version.as_str()),
                output_type: pkg.output_type,
                sources: copy_strings(&pkg.sources),
                includes: copy_strings(&pkg.includes),
                libs: copy_strings(&pkg.libs),
                lib_dirs: copy_strings(&pkg.lib_dirs),
                opt_level: profile.opt_level,
                defines: profile.defines,
                lto: profile.lto,
                flags: profile.flags,
                incremental: profile.incremental,
                toolchain: self.toolchain.merge(None),
            },
            Some(i) => {
                let t = &self.targets[i].1;
                let toolchain = match &t.toolchain {
                    Some(ov) => self.toolchain.merge(Some(ov)),
                    None => self.toolchain.merge(None),
                };
                FinalConfig {
                    name: pick_string(&t.name, &pkg.name),
                    version: String::from_str(pkg.version.as_str()),
                    output_type: match t.output_type {
                        Some(o) => o,
                        None => pkg.output_type,
                    },
                    sources: pick_strings(&t.sources, &pkg.sources),
                    includes: pick_strings(&t.includes, &pkg.includes),
                    libs: pick_strings(&t.libs, &pkg.libs),
                    lib_dirs: pick_strings(&t.lib_dirs, &pkg.lib_dirs),
                    opt_level: match t.opt_level {
                        Some(o) => o,
                        None => profile.opt_level,
                    },
                    defines: pick_strings(&t.defines, &profile.defines),
                    lto: match t.lto {
                        Some(l) => l,
                        None => profile.lto,
                    },
                    flags: pick_strings(&t.flags, &profile.flags),
                    incremental: match t.incremental {
                        Some(b) => b,
                        None => profile.incremental,
                    },
                    toolchain,
                }
            },
        }
    }
}

} // verus!
