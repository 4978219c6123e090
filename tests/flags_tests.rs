use crow::flags::{classify_compiler, convert_args_for_msvc, detect_compiler_flavour, CompilerFlavor};

fn strs(v: &[&str]) -> Vec<String> {
    v.iter().map(|s| s.to_string()).collect()
}

#[test]
fn msvc_rewrite_of_representative_arguments() {
    let args = strs(&[
        "-c", "main.cpp", "-o", "out/main.o", "-O2", "-Iinclude", "-Dfoo", "-std=c++17", "-g", "-MMD",
        "-MF", "out/main.d",
    ]);
    let out = convert_args_for_msvc(&args, "out/main.o");
    assert_eq!(
        out,
        strs(&["/c", "main.cpp", "/Foout/main.o", "/O2", "/Iinclude", "/Dfoo", "/std:c++17", "/Zi", "/EHsc"])
    );
    assert!(out.iter().any(|a| a.starts_with("/Fo")));
    assert!(out.iter().any(|a| a == "/c"));
    assert!(!out.iter().any(|a| a == "-MMD" || a == "-MF" || a == "out/main.d"));
}

#[test]
fn msvc_rewrite_adds_missing_switches() {
    let out = convert_args_for_msvc(&strs(&["x.cpp", "-O0", "-O1", "-Os", "-flto"]), "x.obj");
    assert_eq!(out, strs(&["x.cpp", "/Od", "/O1", "/O2", "/GL", "-fuse-ld=lld", "/Fox.obj", "/c", "/EHsc"]));
}

#[test]
fn msvc_rewrite_separate_include_and_joined_output() {
    let out = convert_args_for_msvc(&strs(&["-I", "dir", "-oa.o", "-c"]), "ignored.o");
    assert_eq!(out, strs(&["/Idir", "/Foa.o", "/c", "/EHsc"]));
}

#[test]
fn flavour_detection_by_file_name() {
    assert_eq!(detect_compiler_flavour("clang-cl.exe"), CompilerFlavor::MsvcLike);
    assert_eq!(detect_compiler_flavour("CL.EXE"), CompilerFlavor::MsvcLike);
    assert_eq!(detect_compiler_flavour("g++"), CompilerFlavor::GnuLike);
    assert_eq!(detect_compiler_flavour("x86_64-linux-gnu-gcc-12"), CompilerFlavor::GnuLike);
    assert_eq!(detect_compiler_flavour("tcc"), CompilerFlavor::GnuLike);
    assert_eq!(detect_compiler_flavour("mystery"), CompilerFlavor::GnuLike);
    assert_eq!(classify_compiler("mystery"), None);
    assert_eq!(classify_compiler("clang++"), Some(CompilerFlavor::MsvcLike));
}
