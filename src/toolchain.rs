//! Toolchain conventions: library file names per operating system, object
//! and dependency-listing paths, and the argument lists of the compile,
//! link and archive steps.

use crate::config::{BuildProfile, HostOs, OutputType, PackageConfig, ToolchainConfig};
use crate::dependency::ResolvedDependency;
use crate::text::{
    chars_of, string_of, has_prefix, holds, join2, starts_with, str_eq, vec_holds, views,
};
use vstd::prelude::*;
use vstd::string::*;

verus! {

/// The decimal digits of `n`.
pub open spec fn decimal(n: nat) -> Seq<char>
    decreases n,
{
    if n < 10 {
        seq![(('0' as u8) + n as u8) as char]
    } else {
        decimal(n / 10) + seq![(('0' as u8) + (n % 10) as u8) as char]
    }
}

/// Relies on `u8`'s `Display` (via `to_string`): its decimal digits.
#[verifier::external_body]
pub(crate) fn decimal_string(n: u8) -> (r: String)
    ensures
        r@ == decimal(n as nat),
{
    n.to_string()
}

/// The static library file name for `name`.
pub open spec fn static_lib_name(name: Seq<char>, os: HostOs) -> Seq<char> {
    if os == HostOs::Windows {
        name + ".lib"@
    } else {
        "lib"@ + name + ".a"@
    }
}

/// The shared library file name for `name`.
pub open spec fn shared_lib_name(name: Seq<char>, os: HostOs) -> Seq<char> {
    match os {
        HostOs::Windows => name + ".dll"@,
        HostOs::MacOs => "lib"@ + name + ".dylib"@,
        HostOs::OtherUnix => "lib"@ + name + ".so"@,
    }
}

pub fn format_static_lib_name(name: &str, os: HostOs) -> (r: String)
    ensures
        r@ == static_lib_name(name@, os),
{
    if os == HostOs::Windows {
        join2(name, ".lib")
    } else {
        let a = join2("lib", name);
        join2(a.as_str(), ".a")
    }
}

pub fn format_shared_lib_name(name: &str, os: HostOs) -> (r: String)
    ensures
        r@ == shared_lib_name(name@, os),
{
    match os {
        HostOs::Windows => join2(name, ".dll"),
        HostOs::MacOs => {
            let a = join2("lib", name);
            join2(a.as_str(), ".dylib")
        },
        HostOs::OtherUnix => {
            let a = join2("lib", name);
            join2(a.as_str(), ".so")
        },
    }
}

/// The file name of the artifact a package builds.
pub open spec fn artifact_name(name: Seq<char>, kind: OutputType, os: HostOs) -> Seq<char> {
    match kind {
        OutputType::Executable => name,
        OutputType::StaticLib => static_lib_name(name, os),
        OutputType::SharedLib => shared_lib_name(name, os),
    }
}

pub fn artifact_file_name(name: &str, kind: OutputType, os: HostOs) -> (r: String)
    ensures
        r@ == artifact_name(name@, kind, os),
{
    match kind {
        OutputType::Executable => String::from_str(name),
        OutputType::StaticLib => format_static_lib_name(name, os),
        OutputType::SharedLib => format_shared_lib_name(name, os),
    }
}

/// The file names under which a built library of this kind is looked
/// for; none for an executable.
pub open spec fn library_patterns(name: Seq<char>, kind: OutputType, os: HostOs) -> Option<Seq<Seq<char>>> {
    match kind {
        OutputType::Executable => None,
        OutputType::StaticLib => Some(seq![static_lib_name(name, os)]),
        OutputType::SharedLib => if os == HostOs::Windows {
            Some(seq![name + ".dll"@, name + ".lib"@])
        } else {
            Some(seq![shared_lib_name(name, os)])
        },
    }
}

pub fn library_file_patterns(name: &str, kind: OutputType, os: HostOs) -> (r: Option<Vec<String>>)
    ensures
        match r {
            Some(v) => library_patterns(name@, kind, os) == Some(views(v@)),
            None => library_patterns(name@, kind, os).is_none(),
        },
{
    match kind {
        OutputType::Executable => None,
        OutputType::StaticLib => {
            let v = vec![format_static_lib_name(name, os)];
            assert(views(v@) =~= seq![static_lib_name(name@, os)]);
            Some(v)
        },
        OutputType::SharedLib => {
            if os == HostOs::Windows {
                let v = vec![join2(name, ".dll"), join2(name, ".lib")];
                assert(views(v@) =~= seq![name@ + ".dll"@, name@ + ".lib"@]);
                Some(v)
            } else {
                let v = vec![format_shared_lib_name(name, os)];
                assert(views(v@) =~= seq![shared_lib_name(name@, os)]);
                Some(v)
            }
        },
    }
}

/// A directory the library search does not enter: hidden ones, build-tool
/// internals, documentation, examples and tests.
pub open spec fn skipped_dir(name: Seq<char>) -> bool {
    has_prefix(name, "."@) || name == "CMakeFiles"@ || name == "cmake"@ || name == "doc"@ || name
        == "examples"@ || name == "tests"@ || name == "test"@ || name == "support"@
}

pub fn is_skipped_dir(name: &str) -> (r: bool)
    ensures
        r == skipped_dir(name@),
{
    starts_with(name, ".") || str_eq(name, "CMakeFiles") || str_eq(name, "cmake") || str_eq(name, "doc")
        || str_eq(name, "examples") || str_eq(name, "tests") || str_eq(name, "test") || str_eq(
        name,
        "support",
    )
}

/// Whether a file name is one of the library names looked for.
pub fn is_library_file(file_name: &str, patterns: &Vec<String>) -> (r: bool)
    ensures
        r == holds(views(patterns@), file_name@),
{
    vec_holds(patterns, file_name)
}

/// The position of the last `c` in `s`, or -1.
pub open spec fn last_index_of(s: Seq<char>, c: char) -> int
    decreases s.len(),
{
    if s.len() == 0 {
        -1
    } else if s.last() == c {
        s.len() - 1
    } else {
        last_index_of(s.drop_last(), c)
    }
}

proof fn lemma_last_index_bounds(s: Seq<char>, c: char)
    ensures
        -1 <= last_index_of(s, c) < s.len(),
    decreases s.len(),
{
    if s.len() > 0 && s.last() != c {
        lemma_last_index_bounds(s.drop_last(), c);
    }
}

fn last_index(s: &Vec<char>, c: char) -> (r: Option<usize>)
    ensures
        match r {
            Some(k) => k < s@.len() && k as int == last_index_of(s@, c),
            None => last_index_of(s@, c) == -1,
        },
{
    let mut i: usize = s.len();
    assert(s@.subrange(0, i as int) =~= s@);
    while i > 0
        invariant
            i <= s@.len(),
            last_index_of(s@, c) == last_index_of(s@.subrange(0, i as int), c),
        decreases i,
    {
        let ghost pre = s@.subrange(0, i as int);
        assert(pre.drop_last() =~= s@.subrange(0, i - 1));
        if s[i - 1] == c {
            return Some(i - 1);
        }
        i = i - 1;
    }
    None
}

/// `p` joined below `base` with a `/`, unless `base` is empty or already
/// ends in one.
pub open spec fn join_path(base: Seq<char>, p: Seq<char>) -> Seq<char> {
    if base.len() == 0 {
        p
    } else if base.last() == '/' {
        base + p
    } else {
        base + "/"@ + p
    }
}

pub fn path_join(base: &str, p: &str) -> (r: String)
    ensures
        r@ == join_path(base@, p@),
{
    let n = base.unicode_len();
    if n == 0 {
        String::from_str(p)
    } else if base.get_char(n - 1) == '/' {
        join2(base, p)
    } else {
        let a = join2(base, "/");
        join2(a.as_str(), p)
    }
}

/// The last component of a `/`-separated path.
pub open spec fn file_name_of(p: Seq<char>) -> Seq<char> {
    p.subrange(last_index_of(p, '/') + 1, p.len() as int)
}

/// A file name without its extension (the part after the last `.`, where
/// that `.` is not the first character).
pub open spec fn stem_of(f: Seq<char>) -> Seq<char> {
    if last_index_of(f, '.') > 0 {
        f.subrange(0, last_index_of(f, '.'))
    } else {
        f
    }
}

/// The object file a source compiles to: its stem with `.o`, in `build_dir`.
pub open spec fn object_path_of(build_dir: Seq<char>, source: Seq<char>) -> Seq<char> {
    join_path(build_dir, stem_of(file_name_of(source)) + ".o"@)
}

/// The dependency listing next to an object: same place and stem, `.d`.
pub open spec fn dep_file_of(object: Seq<char>) -> Seq<char> {
    object.subrange(0, last_index_of(object, '/') + 1) + stem_of(file_name_of(object)) + ".d"@
}

fn chars_range(cs: &Vec<char>, from: usize, to: usize) -> (r: String)
    requires
        from <= to <= cs@.len(),
    ensures
        r@ == cs@.subrange(from as int, to as int),
{
    let mut part: Vec<char> = Vec::new();
    let mut i: usize = from;
    while i < to
        invariant
            from <= i <= to,
            to <= cs@.len(),
            part@ == cs@.subrange(from as int, i as int),
        decreases to - i,
    {
        part.push(cs[i]);
        i = i + 1;
        assert(part@ =~= cs@.subrange(from as int, i as int));
    }
    string_of(part.as_slice())
}

/// Splits a path into its directory part (with its trailing `/`) and the
/// stem of its file name.
fn dir_and_stem(p: &str) -> (r: (String, String))
    ensures
        r.0@ == p@.subrange(0, last_index_of(p@, '/') + 1),
        r.1@ == stem_of(file_name_of(p@)),
{
    let cs = chars_of(p);
    proof {
        lemma_last_index_bounds(p@, '/');
    }
    let found = last_index(&cs, '/');
    let start = match found {
        Some(k) => {
            assert(k < cs@.len());
            assert(cs@.len() == cs.len());
            k + 1
        },
        None => 0,
    };
    let dir = chars_range(&cs, 0, start);
    let name = chars_range(&cs, start, cs.len());
    let ncs = chars_of(name.as_str());
    proof {
        lemma_last_index_bounds(name@, '.');
    }
    let stem = match last_index(&ncs, '.') {
        Some(dot) => if dot > 0 {
            chars_range(&ncs, 0, dot)
        } else {
            name
        },
        None => name,
    };
    (dir, stem)
}

/// The directory part of a `/`-separated path (without the last `/`).
pub open spec fn parent_of(p: Seq<char>) -> Seq<char> {
    if last_index_of(p, '/') < 0 {
        Seq::empty()
    } else {
        p.subrange(0, last_index_of(p, '/'))
    }
}

pub fn parent_path(p: &str) -> (r: String)
    ensures
        r@ == parent_of(p@),
{
    let cs = chars_of(p);
    proof {
        lemma_last_index_bounds(p@, '/');
    }
    match last_index(&cs, '/') {
        Some(k) => chars_range(&cs, 0, k),
        None => String::new(),
    }
}

/// The object file for `source` in `build_dir`.
pub fn object_path(build_dir: &str, source: &str) -> (r: String)
    ensures
        r@ == object_path_of(build_dir@, source@),
{
    let (_, stem) = dir_and_stem(source);
    let f = join2(stem.as_str(), ".o");
    path_join(build_dir, f.as_str())
}

/// The dependency listing the compiler writes for `object`.
pub fn dep_file_path(object: &str) -> (r: String)
    ensures
        r@ == dep_file_of(object@),
{
    let (dir, stem) = dir_and_stem(object);
    let a = join2(dir.as_str(), stem.as_str());
    join2(a.as_str(), ".d")
}

/// `prefix` before each item.
pub open spec fn prefixed(prefix: Seq<char>, v: Seq<Seq<char>>) -> Seq<Seq<char>> {
    v.map_values(|x: Seq<char>| prefix + x)
}

/// Appends each item of `v` with `prefix` before it.
fn push_prefixed(out: &mut Vec<String>, prefix: &str, v: &Vec<String>)
    ensures
        views(final(out)@) == views(old(out)@) + prefixed(prefix@, views(v@)),
{
    let mut i: usize = 0;
    while i < v.len()
        invariant
            i <= v@.len(),
            views(out@) == views(old(out)@) + prefixed(prefix@, views(v@)).subrange(0, i as int),
        decreases v@.len() - i,
    {
        let ghost prev = out@;
        out.push(join2(prefix, v[i].as_str()));
        assert(views(out@) =~= views(prev).push(prefix@ + v@[i as int]@));
        assert(prefixed(prefix@, views(v@)).subrange(0, i + 1) =~= prefixed(prefix@, views(v@)).subrange(
            0,
            i as int,
        ).push(prefix@ + v@[i as int]@));
        i = i + 1;
    }
    assert(prefixed(prefix@, views(v@)).subrange(0, i as int) =~= prefixed(prefix@, views(v@)));
}

/// Appends each item of `v`.
fn push_all(out: &mut Vec<String>, v: &Vec<String>)
    ensures
        views(final(out)@) == views(old(out)@) + views(v@),
{
    let mut i: usize = 0;
    while i < v.len()
        invariant
            i <= v@.len(),
            views(out@) == views(old(out)@) + views(v@).subrange(0, i as int),
        decreases v@.len() - i,
    {
        let ghost prev = out@;
        out.push(String::from_str(v[i].as_str()));
        assert(views(out@) =~= views(prev).push(v@[i as int]@));
        assert(views(v@).subrange(0, i + 1) =~= views(v@).subrange(0, i as int).push(v@[i as int]@));
        i = i + 1;
    }
    assert(views(v@).subrange(0, i as int) =~= views(v@));
}

/// Appends one string.
fn push_one(out: &mut Vec<String>, s: String)
    ensures
        views(final(out)@) == views(old(out)@).push(s@),
{
    out.push(s);
    assert(views(final(out)@) =~= views(old(out)@).push(s@));
}

/// A path counts as absolute when it starts with a separator or a drive
/// prefix (`C:`).
pub open spec fn is_absolute_path(p: Seq<char>) -> bool {
    p.len() > 0 && (p[0] == '/' || p[0] == '\\' || (p.len() > 1 && p[1] == ':'))
}

pub fn is_absolute(p: &str) -> (r: bool)
    ensures
        r == is_absolute_path(p@),
{
    let n = p.unicode_len();
    n > 0 && (p.get_char(0) == '/' || p.get_char(0) == '\\' || (n > 1 && p.get_char(1) == ':'))
}

/// An include path a dependency exposes, placed below its source root
/// unless it is absolute.
pub open spec fn dep_include(root: Seq<char>, inc: Seq<char>) -> Seq<char> {
    if is_absolute_path(inc) {
        inc
    } else {
        join_path(root, inc)
    }
}

/// The include switches of all dependencies, in order.
pub open spec fn dep_include_args(deps: Seq<ResolvedDependency>) -> Seq<Seq<char>>
    decreases deps.len(),
{
    if deps.len() == 0 {
        Seq::empty()
    } else {
        let d = deps.last();
        dep_include_args(deps.drop_last()) + views(d.output.include_paths@).map_values(
            |inc: Seq<char>| "-I"@ + dep_include(d.source_dir@, inc),
        )
    }
}

fn push_dep_includes(out: &mut Vec<String>, deps: &Vec<ResolvedDependency>)
    ensures
        views(final(out)@) == views(old(out)@) + dep_include_args(deps@),
{
    let mut i: usize = 0;
    assert(deps@.subrange(0, 0) =~= Seq::<ResolvedDependency>::empty());
    assert(views(out@) =~= views(old(out)@) + dep_include_args(deps@.subrange(0, 0)));
    while i < deps.len()
        invariant
            i <= deps@.len(),
            views(out@) == views(old(out)@) + dep_include_args(deps@.subrange(0, i as int)),
        decreases deps@.len() - i,
    {
        let d = &deps[i];
        let ghost before = views(out@);
        let incs = &d.output.include_paths;
        let ghost want = views(incs@).map_values(|inc: Seq<char>| "-I"@ + dep_include(d.source_dir@, inc));
        let mut k: usize = 0;
        while k < incs.len()
            invariant
                k <= incs@.len(),
                want == views(incs@).map_values(|inc: Seq<char>| "-I"@ + dep_include(d.source_dir@, inc)),
                views(out@) == before + want.subrange(0, k as int),
            decreases incs@.len() - k,
        {
            let inc = incs[k].as_str();
            let path = if is_absolute(inc) {
                String::from_str(inc)
            } else {
                path_join(d.source_dir.as_str(), inc)
            };
            let ghost prev = views(out@);
            push_one(out, join2("-I", path.as_str()));
            assert(want.subrange(0, k + 1) =~= want.subrange(0, k as int).push(want[k as int]));
            k = k + 1;
        }
        assert(want.subrange(0, k as int) =~= want);
        proof {
            let pre = deps@.subrange(0, i + 1);
            assert(pre.drop_last() =~= deps@.subrange(0, i as int));
            assert(pre.last() == deps@[i as int]);
        }
        i = i + 1;
    }
    assert(deps@.subrange(0, i as int) =~= deps@);
}

/// The compiler arguments for one source: compile-only, input, output,
/// optimisation level, the toolchain's flags, the LTO switches, the
/// profile's flags, defines, the package's include paths, each
/// dependency's include paths, and with incremental mode the switches
/// that make the compiler write its dependency listing.
pub open spec fn compile_args(
    toolchain: ToolchainConfig,
    profile: BuildProfile,
    package: PackageConfig,
    deps: Seq<ResolvedDependency>,
    source: Seq<char>,
    output: Seq<char>,
) -> Seq<Seq<char>> {
    seq!["-c"@, source, "-o"@, output, "-O"@ + decimal(profile.opt_level as nat)] + views(
        toolchain.compiler_flags@,
    ) + (if profile.lto {
        seq!["-flto"@, "-fuse-ld=lld"@]
    } else {
        Seq::empty()
    }) + views(profile.flags@) + prefixed("-D"@, views(profile.defines@)) + prefixed(
        "-I"@,
        views(package.includes@),
    ) + dep_include_args(deps) + (if profile.incremental {
        seq!["-MMD"@, "-MF"@, dep_file_of(output)]
    } else {
        Seq::empty()
    })
}

pub fn build_compile_args(
    toolchain: &ToolchainConfig,
    profile: &BuildProfile,
    package: &PackageConfig,
    deps: &Vec<ResolvedDependency>,
    source: &str,
    output: &str,
) -> (r: Vec<String>)
    ensures
        views(r@) == compile_args(*toolchain, *profile, *package, deps@, source@, output@),
{
    let mut args: Vec<String> = Vec::new();
    push_one(&mut args, String::from_str("-c"));
    push_one(&mut args, String::from_str(source));
    push_one(&mut args, String::from_str("-o"));
    push_one(&mut args, String::from_str(output));
    let lvl = decimal_string(profile.opt_level);
    push_one(&mut args, join2("-O", lvl.as_str()));
    let ghost a0 = views(args@);
    assert(a0 =~= seq!["-c"@, source@, "-o"@, output@, "-O"@ + decimal(profile.opt_level as nat)]);
    push_all(&mut args, &toolchain.compiler_flags);
    let ghost a1 = views(args@);
    if profile.lto {
        push_one(&mut args, String::from_str("-flto"));
        push_one(&mut args, String::from_str("-fuse-ld=lld"));
    }
    let ghost a2 = views(args@);
    assert(a2 =~= a1 + (if profile.lto {
        seq!["-flto"@, "-fuse-ld=lld"@]
    } else {
        Seq::<Seq<char>>::empty()
    }));
    push_all(&mut args, &profile.flags);
    push_prefixed(&mut args, "-D", &profile.defines);
    push_prefixed(&mut args, "-I", &package.includes);
    push_dep_includes(&mut args, deps);
    let ghost a3 = views(args@);
    if profile.incremental {
        push_one(&mut args, String::from_str("-MMD"));
        push_one(&mut args, String::from_str("-MF"));
        push_one(&mut args, dep_file_path(output));
    }
    assert(views(args@) =~= a3 + (if profile.incremental {
        seq!["-MMD"@, "-MF"@, dep_file_of(output@)]
    } else {
        Seq::<Seq<char>>::empty()
    }));
    args
}

/// The library search switches of a link: the package's directories, each
/// dependency's directory, the package's libraries, each dependency's
/// library.
pub open spec fn library_args(package: PackageConfig, deps: Seq<ResolvedDependency>) -> Seq<Seq<char>> {
    prefixed("-L"@, views(package.lib_dirs@)) + prefixed(
        "-L"@,
        deps.map_values(|d: ResolvedDependency| d.output.library_dir@),
    ) + prefixed("-l"@, views(package.libs@)) + prefixed(
        "-l"@,
        deps.map_values(|d: ResolvedDependency| d.output.lib_name@),
    )
}

fn dep_dirs(deps: &Vec<ResolvedDependency>) -> (r: Vec<String>)
    ensures
        views(r@) == deps@.map_values(|d: ResolvedDependency| d.output.library_dir@),
{
    let mut r: Vec<String> = Vec::new();
    let mut i: usize = 0;
    while i < deps.len()
        invariant
            i <= deps@.len(),
            r@.len() == i,
            forall|k: int| 0 <= k < i ==> #[trigger] r@[k]@ == deps@[k].output.library_dir@,
        decreases deps@.len() - i,
    {
        r.push(String::from_str(deps[i].output.library_dir.as_str()));
        i = i + 1;
    }
    assert(views(r@) =~= deps@.map_values(|d: ResolvedDependency| d.output.library_dir@));
    r
}

fn dep_libs(deps: &Vec<ResolvedDependency>) -> (r: Vec<String>)
    ensures
        views(r@) == deps@.map_values(|d: ResolvedDependency| d.output.lib_name@),
{
    let mut r: Vec<String> = Vec::new();
    let mut i: usize = 0;
    while i < deps.len()
        invariant
            i <= deps@.len(),
            r@.len() == i,
            forall|k: int| 0 <= k < i ==> #[trigger] r@[k]@ == deps@[k].output.lib_name@,
        decreases deps@.len() - i,
    {
        r.push(String::from_str(deps[i].output.lib_name.as_str()));
        i = i + 1;
    }
    assert(views(r@) =~= deps@.map_values(|d: ResolvedDependency| d.output.lib_name@));
    r
}

/// The linker arguments: `-shared` for a shared library, the objects, the
/// linker flags, with LTO the LTO switch and the optimisation level, the
/// library search switches, and the output.
pub open spec fn link_args(
    toolchain: ToolchainConfig,
    profile: BuildProfile,
    package: PackageConfig,
    deps: Seq<ResolvedDependency>,
    objects: Seq<Seq<char>>,
    output: Seq<char>,
    shared: bool,
) -> Seq<Seq<char>> {
    (if shared {
        seq!["-shared"@]
    } else {
        Seq::empty()
    }) + objects + views(toolchain.linker_flags@) + (if profile.lto {
        seq!["-flto"@, "-O"@ + decimal(profile.opt_level as nat)]
    } else {
        Seq::empty()
    }) + library_args(package, deps) + seq!["-o"@, output]
}

fn build_link_args(
    toolchain: &ToolchainConfig,
    profile: &BuildProfile,
    package: &PackageConfig,
    deps: &Vec<ResolvedDependency>,
    objects: &Vec<String>,
    output: &str,
    shared: bool,
) -> (r: Vec<String>)
    ensures
        views(r@) == link_args(*toolchain, *profile, *package, deps@, views(objects@), output@, shared),
{
    let mut args: Vec<String> = Vec::new();
    if shared {
        push_one(&mut args, String::from_str("-shared"));
    }
    let ghost a0 = views(args@);
    assert(a0 =~= (if shared {
        seq!["-shared"@]
    } else {
        Seq::<Seq<char>>::empty()
    }));
    push_all(&mut args, objects);
    push_all(&mut args, &toolchain.linker_flags);
    let ghost a1 = views(args@);
    if profile.lto {
        push_one(&mut args, String::from_str("-flto"));
        let lvl = decimal_string(profile.opt_level);
        push_one(&mut args, join2("-O", lvl.as_str()));
    }
    let ghost a2 = views(args@);
    assert(a2 =~= a1 + (if profile.lto {
        seq!["-flto"@, "-O"@ + decimal(profile.opt_level as nat)]
    } else {
        Seq::<Seq<char>>::empty()
    }));
    push_prefixed(&mut args, "-L", &package.lib_dirs);
    let dirs = dep_dirs(deps);
    push_prefixed(&mut args, "-L", &dirs);
    push_prefixed(&mut args, "-l", &package.libs);
    let libs = dep_libs(deps);
    push_prefixed(&mut args, "-l", &libs);
    let ghost a3 = views(args@);
    push_one(&mut args, String::from_str("-o"));
    push_one(&mut args, String::from_str(output));
    assert(views(args@) =~= a3 + seq!["-o"@, output@]);
    assert(views(args@) =~= link_args(*toolchain, *profile, *package, deps@, views(objects@), output@, shared));
    args
}

/// The linker arguments for an executable.
pub fn link_executable_args(
    toolchain: &ToolchainConfig,
    profile: &BuildProfile,
    package: &PackageConfig,
    deps: &Vec<ResolvedDependency>,
    objects: &Vec<String>,
    output: &str,
) -> (r: Vec<String>)
    ensures
        views(r@) == link_args(*toolchain, *profile, *package, deps@, views(objects@), output@, false),
{
    build_link_args(toolchain, profile, package, deps, objects, output, false)
}

/// The linker arguments for a shared library.
pub fn link_shared_library_args(
    toolchain: &ToolchainConfig,
    profile: &BuildProfile,
    package: &PackageConfig,
    deps: &Vec<ResolvedDependency>,
    objects: &Vec<String>,
    output: &str,
) -> (r: Vec<String>)
    ensures
        views(r@) == link_args(*toolchain, *profile, *package, deps@, views(objects@), output@, true),
{
    build_link_args(toolchain, profile, package, deps, objects, output, true)
}

/// The archiver arguments: its flags, the archive, the objects.
pub fn archive_static_library_args(toolchain: &ToolchainConfig, objects: &Vec<String>, output: &str) -> (r: Vec<String>)
    ensures
        views(r@) == views(toolchain.archiver_flags@) + seq![output@] + views(objects@),
{
    let mut args: Vec<String> = Vec::new();
    assert(views(args@) =~= Seq::<Seq<char>>::empty());
    push_all(&mut args, &toolchain.archiver_flags);
    push_one(&mut args, String::from_str(output));
    push_all(&mut args, objects);
    args
}

} // verus!
