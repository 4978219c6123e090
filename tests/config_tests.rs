use crow::config::{
    BuildProfile, BuildSystemType, Config, CrowDependencyBuild, Dependency, HostOs, OutputType,
    PackageConfig, Target, ToolchainConfig, ToolchainHooks, ToolchainOverride,
};
use crow::resolve::{resolve_config, select_target, ConfigError};

fn s(x: &str) -> String {
    x.to_string()
}

fn strs(v: &[&str]) -> Vec<String> {
    v.iter().map(|x| x.to_string()).collect()
}

fn base_config() -> Config {
    let mut package = PackageConfig::default();
    package.name = s("app");
    package.version = s("1.0.0");
    Config {
        package,
        toolchain: ToolchainConfig::with_compiler("g++", "g++", HostOs::OtherUnix),
        profiles: Config::fill_default_profiles(None),
        targets: Vec::new(),
        dependencies: Vec::new(),
    }
}

#[test]
fn default_profiles_match_builtin_settings() {
    let d = BuildProfile::default_debug();
    assert_eq!((d.opt_level, d.lto, d.incremental), (0, false, true));
    assert_eq!(d.defines, strs(&["DEBUG"]));
    assert_eq!(d.flags, strs(&["-g"]));
    let r = BuildProfile::default_release();
    assert_eq!((r.opt_level, r.lto, r.incremental), (3, true, false));
    assert_eq!(r.defines, strs(&["NDEBUG"]));
    assert_eq!(r.flags, strs(&["-O3"]));
    let p = Config::generate_default_profiles_map();
    assert_eq!(p[0].0, "debug");
    assert_eq!(p[1].0, "release");
}

#[test]
fn missing_builtin_profiles_are_added_after_given_ones() {
    let mut custom = BuildProfile::default_debug();
    custom.opt_level = 2;
    let filled = Config::fill_default_profiles(Some(vec![(s("bench"), custom)]));
    let names: Vec<&str> = filled.iter().map(|(n, _)| n.as_str()).collect();
    assert_eq!(names, vec!["bench", "debug", "release"]);
    assert_eq!(filled[0].1.opt_level, 2);

    let mut mine = BuildProfile::default_release();
    mine.opt_level = 1;
    let filled = Config::fill_default_profiles(Some(vec![(s("release"), mine)]));
    let names: Vec<&str> = filled.iter().map(|(n, _)| n.as_str()).collect();
    assert_eq!(names, vec!["release", "debug"]);
    assert_eq!(filled[0].1.opt_level, 1);
}

#[test]
fn package_and_toolchain_defaults() {
    let p = PackageConfig::default();
    assert_eq!(p.sources, strs(&["src/**/*.cpp", "src/**/*.c"]));
    assert_eq!(p.includes, strs(&["include/"]));
    assert_eq!(p.output_type, OutputType::Executable);
    let t = ToolchainConfig::with_compiler("clang++", "clang++", HostOs::Windows);
    assert_eq!(t.archiver, "lib.exe");
    assert!(t.archiver_flags.is_empty());
    let t = ToolchainConfig::with_compiler("g++", "g++", HostOs::OtherUnix);
    assert_eq!(t.archiver, "ar");
    assert_eq!(t.archiver_flags, strs(&["rcs"]));
    assert_eq!(t.compiler_flags, strs(&["-std=c++17"]));
    assert_eq!(t.linker_flags, strs(&["-lstdc++"]));
}

#[test]
fn merge_replaces_only_set_fields() {
    let base = ToolchainConfig::with_compiler("g++", "g++", HostOs::OtherUnix);
    let ov = ToolchainOverride {
        compiler: Some(s("clang++")),
        compiler_flags: None,
        linker: None,
        linker_flags: Some(strs(&["-static"])),
        archiver: None,
        archiver_flags: None,
        hooks: ToolchainHooks { pre_execute: Some(strs(&["echo hi"])), post_execute: None },
    };
    let m = base.merge(Some(&ov));
    assert_eq!(m.compiler, "clang++");
    assert_eq!(m.linker, "g++");
    assert_eq!(m.compiler_flags, strs(&["-std=c++17"]));
    assert_eq!(m.linker_flags, strs(&["-static"]));
    assert_eq!(m.hooks.pre_execute, Some(strs(&["echo hi"])));
    assert_eq!(m.hooks.post_execute, None);
    let same = base.merge(None);
    assert_eq!(same.compiler, "g++");
}

#[test]
fn infer_defaults_from_manifest_and_key() {
    let c = CrowDependencyBuild::infer_defaults(true, "fmt", None);
    assert_eq!(c.build_system, Some(BuildSystemType::Crow));
    assert_eq!(c.lib_name, "fmt");
    assert_eq!(c.output_type, OutputType::StaticLib);
    let c = CrowDependencyBuild::infer_defaults(false, "zlib", None);
    assert_eq!(c.build_system, Some(BuildSystemType::Cmake));
    let mut given = CrowDependencyBuild::default();
    given.lib_name = s("z");
    given.build_system = Some(BuildSystemType::Crow);
    let c = CrowDependencyBuild::infer_defaults(false, "zlib", Some(given));
    assert_eq!(c.build_system, Some(BuildSystemType::Crow));
    assert_eq!(c.lib_name, "z");
    assert_eq!(Dependency::default_branch(), "");
}

#[test]
fn final_config_applies_target_and_profile() {
    let mut cfg = base_config();
    let mut t = Target::empty();
    t.name = Some(s("app-win"));
    t.opt_level = Some(1);
    t.toolchain = Some(ToolchainOverride {
        compiler: Some(s("cl.exe")),
        compiler_flags: None,
        linker: None,
        linker_flags: None,
        archiver: None,
        archiver_flags: None,
        hooks: ToolchainHooks::none(),
    });
    cfg.targets.push((s("windows"), t));
    assert!(cfg.is_well_formed());
    let f = cfg.final_config("windows", "release");
    assert_eq!(f.name, "app-win");
    assert_eq!(f.opt_level, 1);
    assert!(f.lto);
    assert_eq!(f.defines, strs(&["NDEBUG"]));
    assert_eq!(f.toolchain.compiler, "cl.exe");
    let f = cfg.final_config("none", "missing");
    assert_eq!(f.name, "app");
    assert_eq!(f.opt_level, 0);
    assert_eq!(f.flags, strs(&["-g"]));
    assert_eq!(f.toolchain.compiler, "g++");
}

#[test]
fn duplicate_keys_are_not_well_formed() {
    let mut cfg = base_config();
    cfg.profiles.push((s("debug"), BuildProfile::default_debug()));
    assert!(!cfg.is_well_formed());
}

#[test]
fn target_selection_prefers_specific_then_first() {
    let mut any = Target::empty();
    any.opt_level = Some(9);
    let mut os_only = Target::empty();
    os_only.os = Some(s("linux"));
    let mut arch_only = Target::empty();
    arch_only.arch = Some(s("x86_64"));
    let mut both = Target::empty();
    both.os = Some(s("linux"));
    both.arch = Some(s("x86_64"));
    let mut other = Target::empty();
    other.os = Some(s("windows"));
    let targets = vec![(s("a"), any), (s("b"), os_only), (s("c"), arch_only), (s("d"), other)];
    assert_eq!(select_target(&targets, "linux", "x86_64"), Some(2));
    assert_eq!(select_target(&targets, "linux", "aarch64"), Some(1));
    assert_eq!(select_target(&targets, "macos", "aarch64"), Some(0));
    let mut t2 = vec![(s("b"), both)];
    let mut again = Target::empty();
    again.os = Some(s("linux"));
    again.arch = Some(s("x86_64"));
    t2.push((s("e"), again));
    assert_eq!(select_target(&t2, "linux", "x86_64"), Some(0));
    assert_eq!(select_target(&t2, "windows", "x86_64"), None);
}

#[test]
fn resolve_config_reports_missing_profile() {
    let cfg = base_config();
    match resolve_config(&cfg, "bench", "linux", "x86_64") {
        Err(ConfigError::ProfileNotFound(n)) => assert_eq!(n, "bench"),
        other => panic!("unexpected {:?}", other),
    }
}

#[test]
fn resolve_config_orders_hooks_and_applies_overrides() {
    let mut cfg = base_config();
    cfg.toolchain.hooks = ToolchainHooks { pre_execute: Some(strs(&["tc-pre"])), post_execute: Some(strs(&["tc-post"])) };
    let mut t = Target::empty();
    t.os = Some(s("linux"));
    t.hooks = ToolchainHooks { pre_execute: Some(strs(&["t-pre"])), post_execute: Some(strs(&["t-post"])) };
    t.toolchain = Some(ToolchainOverride {
        compiler: Some(s("clang++")),
        compiler_flags: None,
        linker: None,
        linker_flags: None,
        archiver: None,
        archiver_flags: None,
        hooks: ToolchainHooks { pre_execute: Some(strs(&["o-pre"])), post_execute: Some(strs(&["o-post"])) },
    });
    t.incremental = Some(false);
    t.libs = Some(strs(&["m"]));
    cfg.targets.push((s("linux"), t));
    let r = resolve_config(&cfg, "debug", "linux", "x86_64").unwrap();
    assert_eq!(r.hooks, strs(&["tc-pre", "t-pre", "o-pre", "o-post", "t-post", "tc-post"]));
    assert_eq!(r.toolchain.compiler, "clang++");
    assert_eq!(r.toolchain.hooks.pre_execute, Some(strs(&["tc-pre"])));
    assert!(!r.profile.incremental);
    assert_eq!(r.package.libs, strs(&["m"]));
    let r = resolve_config(&cfg, "debug", "macos", "aarch64").unwrap();
    assert_eq!(r.hooks, strs(&["tc-pre", "tc-post"]));
    assert_eq!(r.toolchain.compiler, "g++");
    assert!(r.profile.incremental);
}
