use crow::builder::{BuildSystem, CrowDependency, IncrementalBuilder};
use crow::config::{Config, CrowDependencyBuild, Dependency, HostOs, OutputType, PackageConfig, ToolchainConfig};
use crow::dependency::{dependency_build_dir, dependency_step, plan_fetch, DependencyStep, FetchAction, ResolvedDependency};
use crow::flags::CompilerFlavor;
use crow::incremental::{finish_compilation, plan_compilation, BuildCache, CacheEntry, CompileOutcome, SourceProbe};
use crow::logger::Logger;

fn s(x: &str) -> String {
    x.to_string()
}

fn project() -> Config {
    let mut package = PackageConfig::default();
    package.name = s("app");
    Config {
        package,
        toolchain: ToolchainConfig::with_compiler("g++", "g++", HostOs::OtherUnix),
        profiles: Config::fill_default_profiles(None),
        targets: Vec::new(),
        dependencies: vec![(s("zlib"), Dependency::Path { path: s("../zlib"), build: None })],
    }
}

#[test]
fn two_sources_one_changed_with_prebuilt_local_dependency() {
    let cfg = project();
    assert!(cfg.is_well_formed());
    let mut bs = BuildSystem::new(cfg, "debug", "linux", "x86_64", HostOs::OtherUnix, false, Logger::new()).unwrap();
    assert!(bs.hooks.is_empty());

    // the dependency: local path, already built for this profile
    let (name, dep) = (&bs.config.dependencies[0].0, &bs.config.dependencies[0].1);
    let fetch = plan_fetch(name, dep, ".crow/_deps", false, true, false).unwrap();
    assert!(matches!(fetch.action, FetchAction::UseLocal));
    let build = CrowDependencyBuild::infer_defaults(true, name, None);
    let dir = dependency_build_dir(&fetch.source_dir, "debug");
    let lib = format!("{}/libzlib.a", dir);
    let output = match dependency_step(name, &fetch.source_dir, &build, Some(&lib), true, false).unwrap() {
        DependencyStep::Reuse(o) => o,
        other => panic!("dependency would be built: {:?}", other),
    };
    bs.add_dependency(ResolvedDependency { name: s("zlib"), source_dir: fetch.source_dir, output });

    // two sources: main.cpp unchanged, util.cpp changed since the last build
    let ib = IncrementalBuilder::new("target", "debug");
    assert_eq!(ib.cache_path, "target/debug/crow-debug.cache");
    let main_o = bs.object_for(&ib.build_dir, "src/main.cpp");
    let util_o = bs.object_for(&ib.build_dir, "src/util.cpp");
    let main_flags = crow::cache::compute_flags_hash("g++", &bs.compiler_args(CompilerFlavor::GnuLike, "src/main.cpp", &main_o));
    let util_flags = crow::cache::compute_flags_hash("g++", &bs.compiler_args(CompilerFlavor::GnuLike, "src/util.cpp", &util_o));
    let mut old = BuildCache::new();
    old.insert(s("src/main.cpp"), CacheEntry { source_hash: 10, flags_hash: main_flags, deps_hash: 100, obj_path: main_o.clone() });
    old.insert(s("src/util.cpp"), CacheEntry { source_hash: 20, flags_hash: util_flags, deps_hash: 200, obj_path: util_o.clone() });
    let sources = vec![
        SourceProbe { key: s("src/main.cpp"), object: main_o.clone(), source_hash: 10, flags_hash: main_flags, recorded_object_exists: true, header_hash: Some(100) },
        SourceProbe { key: s("src/util.cpp"), object: util_o.clone(), source_hash: 21, flags_hash: util_flags, recorded_object_exists: true, header_hash: Some(200) },
    ];
    let plan = plan_compilation(&old, bs.profile_config.incremental, &sources);
    assert_eq!(plan.iter().filter(|c| **c).count(), 1);
    let outcomes: Vec<Option<CompileOutcome>> = plan
        .iter()
        .map(|c| if *c { Some(CompileOutcome::Compiled { header_hash: 201 }) } else { None })
        .collect();
    let done = finish_compilation(&old, true, &sources, &outcomes).unwrap();
    assert_eq!(done.cache.len(), 2);

    // one link step, against the dependency
    let step = bs.build(&ib.build_dir, &done.objects);
    assert_eq!(step.tool, "g++");
    assert_eq!(step.artifact, "target/debug/app");
    assert!(step.make_executable);
    assert!(step.args.contains(&s("-L../zlib/_crow_build/debug")));
    assert!(step.args.contains(&s("-lzlib")));
    let out = bs.build_output("/work", &ib.build_dir, &step.artifact);
    assert_eq!(out.library_path, "/work/target/debug/app");
}

#[test]
fn native_dependency_builds_requested_kind_with_one_job() {
    let cfg = project();
    let mut b = CrowDependencyBuild::default();
    b.output_type = OutputType::SharedLib;
    let nested = CrowDependency::build(&cfg, &b);
    assert_eq!(nested.jobs, 1);
    assert_eq!(nested.package.output_type, OutputType::SharedLib);
    assert_eq!(nested.package.name, "app");
}

#[test]
fn msvc_flavour_changes_compile_arguments() {
    let bs = BuildSystem::new(project(), "release", "windows", "x86_64", HostOs::Windows, false, Logger::new()).unwrap();
    let args = bs.compiler_args(CompilerFlavor::MsvcLike, "a.cpp", "a.obj");
    assert_eq!(args[0], "/c");
    assert!(args.contains(&s("/Foa.obj")));
    assert_eq!(args.last().unwrap(), "/EHsc");
    let step = bs.build("out", &vec![s("a.obj")]);
    assert_eq!(step.artifact, "out/app");
}

#[test]
fn unknown_profile_is_rejected() {
    assert!(BuildSystem::new(project(), "bench", "linux", "x86_64", HostOs::OtherUnix, false, Logger::new()).is_err());
}
