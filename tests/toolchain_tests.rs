use crow::config::{BuildProfile, HostOs, OutputType, PackageConfig, ToolchainConfig};
use crow::dependency::{DependencyBuildOutput, ResolvedDependency};
use crow::toolchain::{
    archive_static_library_args, artifact_file_name, build_compile_args, dep_file_path,
    format_shared_lib_name, format_static_lib_name, is_absolute, is_library_file, is_skipped_dir,
    library_file_patterns, link_executable_args, link_shared_library_args, object_path, parent_path,
    path_join,
};

fn s(x: &str) -> String {
    x.to_string()
}

fn strs(v: &[&str]) -> Vec<String> {
    v.iter().map(|x| x.to_string()).collect()
}

fn dep(name: &str, root: &str, includes: &[&str]) -> ResolvedDependency {
    ResolvedDependency {
        name: s(name),
        source_dir: s(root),
        output: DependencyBuildOutput {
            lib_name: s(name),
            library_path: format!("{}/_crow_build/debug/lib{}.a", root, name),
            library_dir: format!("{}/_crow_build/debug", root),
            include_paths: strs(includes),
        },
    }
}

#[test]
fn library_names_per_platform() {
    assert_eq!(format_static_lib_name("z", HostOs::OtherUnix), "libz.a");
    assert_eq!(format_static_lib_name("z", HostOs::MacOs), "libz.a");
    assert_eq!(format_static_lib_name("z", HostOs::Windows), "z.lib");
    assert_eq!(format_shared_lib_name("z", HostOs::OtherUnix), "libz.so");
    assert_eq!(format_shared_lib_name("z", HostOs::MacOs), "libz.dylib");
    assert_eq!(format_shared_lib_name("z", HostOs::Windows), "z.dll");
    assert_eq!(artifact_file_name("app", OutputType::Executable, HostOs::OtherUnix), "app");
    assert_eq!(library_file_patterns("z", OutputType::SharedLib, HostOs::Windows), Some(strs(&["z.dll", "z.lib"])));
    assert_eq!(library_file_patterns("z", OutputType::StaticLib, HostOs::OtherUnix), Some(strs(&["libz.a"])));
    assert_eq!(library_file_patterns("z", OutputType::Executable, HostOs::OtherUnix), None);
}

#[test]
fn library_search_skips_internal_directories() {
    for d in [".git", "CMakeFiles", "cmake", "doc", "examples", "tests", "test", "support"] {
        assert!(is_skipped_dir(d), "{}", d);
    }
    assert!(!is_skipped_dir("lib"));
    assert!(is_library_file("libz.a", &strs(&["libz.a"])));
    assert!(!is_library_file("libz.so", &strs(&["libz.a"])));
}

#[test]
fn object_and_listing_paths() {
    assert_eq!(object_path("target/debug", "src/util/main.cpp"), "target/debug/main.o");
    assert_eq!(object_path("target/debug/", "a.c"), "target/debug/a.o");
    assert_eq!(object_path("out", "src/.hidden"), "out/.hidden.o");
    assert_eq!(object_path("out", "src/v1.2/x.tar.cpp"), "out/x.tar.o");
    assert_eq!(dep_file_path("target/debug/main.o"), "target/debug/main.d");
    assert_eq!(path_join("", "x"), "x");
    assert_eq!(parent_path("a/b/libz.a"), "a/b");
    assert_eq!(parent_path("libz.a"), "");
    assert!(is_absolute("/usr/include"));
    assert!(is_absolute("C:\\include"));
    assert!(!is_absolute("include"));
}

#[test]
fn compile_arguments_in_order() {
    let tc = ToolchainConfig::with_compiler("g++", "g++", HostOs::OtherUnix);
    let mut profile = BuildProfile::default_debug();
    profile.lto = true;
    let mut pkg = PackageConfig::default();
    pkg.name = s("app");
    let deps = vec![dep("fmt", "deps/fmt", &[".", "include", "/opt/fmt/include"])];
    let args = build_compile_args(&tc, &profile, &pkg, &deps, "src/main.cpp", "target/debug/main.o");
    assert_eq!(
        args,
        strs(&[
            "-c", "src/main.cpp", "-o", "target/debug/main.o", "-O0", "-std=c++17", "-flto",
            "-fuse-ld=lld", "-g", "-DDEBUG", "-Iinclude/", "-Ideps/fmt/.", "-Ideps/fmt/include",
            "-I/opt/fmt/include", "-MMD", "-MF", "target/debug/main.d",
        ])
    );
    let release = BuildProfile::default_release();
    let args = build_compile_args(&tc, &release, &pkg, &Vec::new(), "a.cpp", "a.o");
    assert_eq!(
        args,
        strs(&["-c", "a.cpp", "-o", "a.o", "-O3", "-std=c++17", "-flto", "-fuse-ld=lld", "-O3", "-DNDEBUG", "-Iinclude/"])
    );
}

#[test]
fn link_and_archive_arguments() {
    let tc = ToolchainConfig::with_compiler("g++", "g++", HostOs::OtherUnix);
    let mut profile = BuildProfile::default_release();
    profile.opt_level = 2;
    let mut pkg = PackageConfig::default();
    pkg.libs = strs(&["m"]);
    pkg.lib_dirs = strs(&["/opt/lib"]);
    let deps = vec![dep("fmt", "deps/fmt", &["."])];
    let objs = strs(&["a.o", "b.o"]);
    assert_eq!(
        link_executable_args(&tc, &profile, &pkg, &deps, &objs, "out/app"),
        strs(&[
            "a.o", "b.o", "-lstdc++", "-flto", "-O2", "-L/opt/lib", "-Ldeps/fmt/_crow_build/debug", "-lm",
            "-lfmt", "-o", "out/app",
        ])
    );
    let shared = link_shared_library_args(&tc, &BuildProfile::default_debug(), &pkg, &Vec::new(), &objs, "libx.so");
    assert_eq!(shared, strs(&["-shared", "a.o", "b.o", "-lstdc++", "-L/opt/lib", "-lm", "-o", "libx.so"]));
    assert_eq!(archive_static_library_args(&tc, &objs, "libx.a"), strs(&["rcs", "libx.a", "a.o", "b.o"]));
}
