use crow::config::{BuildProfile, BuildSystemType, CrowDependencyBuild, Dependency, OutputType};
use crow::dependency::{
    declared_build, dependency_build_dir, dependency_step, enter_native_build, foreign_build_output, needs_git,
    git_clone_args, git_pull_args, plan_fetch, CmakeDependency, DependencyBuild, DependencyError, DependencyStep, FetchAction,
};

fn s(x: &str) -> String {
    x.to_string()
}

fn strs(v: &[&str]) -> Vec<String> {
    v.iter().map(|x| x.to_string()).collect()
}

fn git_dep() -> Dependency {
    Dependency::Git { git: s("https://example.org/fmt.git"), branch: s("v10"), build: None }
}

fn path_dep() -> Dependency {
    Dependency::Path { path: s("../zlib"), build: None }
}

#[test]
fn git_dependency_is_cloned_then_pulled() {
    let p = plan_fetch("fmt", &git_dep(), ".crow/_deps", false, false, false).unwrap();
    assert_eq!(p.source_dir, ".crow/_deps/fmt");
    match p.action {
        FetchAction::Clone { url, branch, dest } => {
            assert_eq!(url, "https://example.org/fmt.git");
            assert_eq!(branch, "v10");
            assert_eq!(dest, ".crow/_deps/fmt");
        }
        other => panic!("unexpected {:?}", other),
    }
    let p = plan_fetch("fmt", &git_dep(), ".crow/_deps", true, false, false).unwrap();
    assert!(matches!(p.action, FetchAction::Pull { .. }));
    assert!(needs_git(&vec![(s("z"), path_dep()), (s("fmt"), git_dep())]));
    assert!(!needs_git(&vec![(s("z"), path_dep())]));
}

#[test]
fn path_dependency_local_global_and_missing() {
    let p = plan_fetch("zlib", &path_dep(), "/home/u/.crow/_deps", false, true, false).unwrap();
    assert_eq!(p.source_dir, "../zlib");
    assert!(matches!(p.action, FetchAction::UseLocal));
    let p = plan_fetch("zlib", &path_dep(), "/home/u/.crow/_deps", false, true, true).unwrap();
    assert_eq!(p.source_dir, "/home/u/.crow/_deps/zlib");
    assert!(matches!(p.action, FetchAction::CopyToCache { .. }));
    match plan_fetch("zlib", &path_dep(), "d", false, false, false) {
        Err(DependencyError::MissingPath { name, path }) => {
            assert_eq!(name, "zlib");
            assert_eq!(path, "../zlib");
        }
        other => panic!("unexpected {:?}", other),
    }
}

#[test]
fn prebuilt_dependency_is_reused() {
    let b = CrowDependencyBuild::infer_defaults(true, "zlib", None);
    assert_eq!(dependency_build_dir("../zlib", "debug"), "../zlib/_crow_build/debug");
    match dependency_step("zlib", "../zlib", &b, Some("../zlib/_crow_build/debug/libzlib.a"), true, true).unwrap() {
        DependencyStep::Reuse(o) => {
            assert_eq!(o.lib_name, "zlib");
            assert_eq!(o.library_dir, "../zlib/_crow_build/debug");
            assert_eq!(o.include_paths, strs(&[".", "include"]));
        }
        other => panic!("unexpected {:?}", other),
    }
}

#[test]
fn build_method_decisions() {
    let native = CrowDependencyBuild::infer_defaults(true, "a", None);
    match dependency_step("a", "deps/a", &native, None, true, false).unwrap() {
        DependencyStep::Build(DependencyBuild::Native { manifest, output_type }) => {
            assert_eq!(manifest, "deps/a/crow.toml");
            assert_eq!(output_type, OutputType::StaticLib);
        }
        other => panic!("unexpected {:?}", other),
    }
    assert!(matches!(
        dependency_step("a", "deps/a", &native, None, false, false),
        Err(DependencyError::MissingManifest { .. })
    ));
    let foreign = CrowDependencyBuild::infer_defaults(false, "b", None);
    assert!(matches!(
        dependency_step("b", "deps/b", &foreign, None, false, false),
        Ok(DependencyStep::Build(DependencyBuild::Foreign))
    ));
    let unset = CrowDependencyBuild::default();
    assert!(matches!(
        dependency_step("c", "deps/c", &unset, None, false, false),
        Err(DependencyError::NotInferred { .. })
    ));
    assert!(matches!(
        foreign_build_output("b", &foreign, "deps/b/_crow_build/debug", None, false),
        Err(DependencyError::LibraryNotFound { .. })
    ));
    let o = foreign_build_output("b", &foreign, "bd", Some("/abs/bd/lib/libb.a"), false).unwrap();
    assert_eq!(o.library_dir, "/abs/bd/lib");
    assert_eq!(o.include_paths, strs(&["."]));
}

#[test]
fn declared_build_is_copied() {
    let mut b = CrowDependencyBuild::default();
    b.build_system = Some(BuildSystemType::Cmake);
    let d = Dependency::Path { path: s("x"), build: Some(b) };
    assert_eq!(declared_build(&d).unwrap().build_system, Some(BuildSystemType::Cmake));
    assert!(declared_build(&git_dep()).is_none());
}

#[test]
fn foreign_build_commands() {
    assert_eq!(CmakeDependency::build_type("release"), "Release");
    assert_eq!(CmakeDependency::build_type("debug"), "Debug");
    let mut p = BuildProfile::default_release();
    p.opt_level = 2;
    assert_eq!(CmakeDependency::cxx_flags(&p, None), "-O2 -flto");
    assert_eq!(CmakeDependency::cxx_flags(&BuildProfile::default_debug(), Some("bd/crow_pch.h")), "-O0 -include bd/crow_pch.h");
    assert_eq!(CmakeDependency::pch_content(&strs(&["vector", "string"])), "#include <vector>\n#include <string>\n");
    assert_eq!(
        CmakeDependency::configure_args("src", "bd", "Debug", "g++", "-O0", &strs(&["-DX=1"])),
        strs(&[
            "-S", "src", "-B", "bd", "-DCMAKE_BUILD_TYPE=Debug", "-DCMAKE_CXX_COMPILER=g++",
            "-DCMAKE_CXX_FLAGS=-O0", "-DCMAKE_DEBUG_POSTFIX=", "-DBUILD_TESTING=OFF",
            "-DCMAKE_MSVC_RUNTIME_LIBRARY='MultiThreaded'", "-DCMAKE_DISABLE_TESTING=ON", "-DX=1",
        ])
    );
    assert_eq!(CmakeDependency::build_args("bd", "Release"), strs(&["--build", "bd", "--config", "Release"]));
    assert_eq!(
        CmakeDependency::pch_compile_args("p.h", "p.h.gch", &BuildProfile::default_debug()),
        strs(&["-x", "c++-header", "p.h", "-o", "p.h.gch", "-std=c++17", "-O0"])
    );
}

#[test]
fn native_build_cycle_is_detected() {
    let started = enter_native_build(&Vec::new(), "root", "/w/app").unwrap();
    assert_eq!(started, strs(&["/w/app"]));
    let nested = enter_native_build(&started, "lib", "/w/lib").unwrap();
    assert_eq!(nested, strs(&["/w/app", "/w/lib"]));
    match enter_native_build(&nested, "app", "/w/app") {
        Err(DependencyError::Cycle { name }) => assert_eq!(name, "app"),
        other => panic!("unexpected {:?}", other),
    }
}

#[test]
fn git_command_arguments() {
    assert_eq!(git_clone_args("u", "v1", "d"), strs(&["clone", "--depth", "1", "--branch", "v1", "u", "d"]));
    assert_eq!(git_clone_args("u", "", "d"), strs(&["clone", "--depth", "1", "u", "d"]));
    assert_eq!(git_pull_args("d"), strs(&["-C", "d", "pull"]));
}
