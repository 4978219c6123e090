//! Compiler flavours and the rewriting of baseline (GNU-style) compiler
//! arguments for the flavour that takes `/`-prefixed switches.

use crate::text::{
    contains, has_prefix, holds, join2, occurs_in, starts_with, str_eq, tail_from, views,
};
use vstd::prelude::*;
use vstd::string::*;

verus! {

/// The argument syntax a compiler expects.
#[derive(Clone, Copy, Debug, PartialEq, Eq, Structural)]
pub enum CompilerFlavor {
    /// GCC and Clang style: `-c`, `-o out`, `-Idir`.
    GnuLike,
    /// MSVC style: `/c`, `/Foout`, `/Idir`.
    MsvcLike,
}

/// What `str::to_lowercase` makes of a string.
pub uninterp spec fn lowercase_of(s: Seq<char>) -> Seq<char>;

/// Relies on `str::to_lowercase`: the Unicode lower-case mapping of each
/// character, which depends on the characters alone.
#[verifier::external_body]
fn to_lower(s: &str) -> (r: String)
    ensures
        r@ == lowercase_of(s@),
{
    s.to_lowercase()
}

/// The flavour a lower-cased compiler file name names, if it names one.
pub open spec fn flavor_of_name(f: Seq<char>) -> Option<CompilerFlavor> {
    if occurs_in(f, "clang-cl"@) || f == "cl.exe"@ || f == "clang++"@ {
        Some(CompilerFlavor::MsvcLike)
    } else if occurs_in(f, "clang"@) || occurs_in(f, "g++"@) || occurs_in(f, "gcc"@) || occurs_in(
        f,
        "cc"@,
    ) || occurs_in(f, "c++"@) {
        Some(CompilerFlavor::GnuLike)
    } else {
        None
    }
}

/// Classifies a lower-cased compiler file name; `None` when no known
/// fragment occurs in it.
pub fn classify_compiler(lower_name: &str) -> (r: Option<CompilerFlavor>)
    ensures
        r == flavor_of_name(lower_name@),
{
    if contains(lower_name, "clang-cl") || str_eq(lower_name, "cl.exe") || str_eq(lower_name, "clang++") {
        Some(CompilerFlavor::MsvcLike)
    } else if contains(lower_name, "clang") || contains(lower_name, "g++") || contains(lower_name, "gcc")
        || contains(lower_name, "cc") || contains(lower_name, "c++") {
        Some(CompilerFlavor::GnuLike)
    } else {
        None
    }
}

/// The flavour of the compiler whose executable has file name
/// `file_name`, compared without regard to case; unrecognised names count
/// as GNU-like.
pub fn detect_compiler_flavour(file_name: &str) -> (r: CompilerFlavor)
    ensures
        r == match flavor_of_name(lowercase_of(file_name@)) {
            Some(f) => f,
            None => CompilerFlavor::GnuLike,
        },
{
    let lower = to_lower(file_name);
    match classify_compiler(lower.as_str()) {
        Some(f) => f,
        None => CompilerFlavor::GnuLike,
    }
}

/// The characters after the first two.
pub open spec fn after2(s: Seq<char>) -> Seq<char> {
    s.subrange(2, s.len() as int)
}

/// The baseline language-standard switches that map to the alternate
/// flavour's C++17 switch.
pub open spec fn is_std_switch(s: Seq<char>) -> bool {
    s == "-std=c++17"@ || s == "-std=gnu++17"@ || s == "-std=gnu++2a"@ || s == "-std=c++2a"@
}

/// The alternate flavour's optimisation switch for a baseline level.
pub open spec fn opt_switch(level: Seq<char>) -> Seq<char> {
    if level == "0"@ {
        "/Od"@
    } else if level == "1"@ {
        "/O1"@
    } else {
        "/O2"@
    }
}

/// The one-for-one rewriting of baseline arguments.
pub open spec fn rewrite_args(args: Seq<Seq<char>>) -> Seq<Seq<char>>
    decreases args.len(),
{
    if args.len() == 0 {
        Seq::empty()
    } else {
        let s = args[0];
        let rest = args.subrange(1, args.len() as int);
        if s == "-c"@ {
            seq!["/c"@] + rewrite_args(rest)
        } else if s == "-o"@ {
            if rest.len() > 0 {
                seq!["/Fo"@ + rest[0]] + rewrite_args(rest.subrange(1, rest.len() as int))
            } else {
                Seq::empty()
            }
        } else if has_prefix(s, "-o"@) && s.len() > 2 {
            seq!["/Fo"@ + after2(s)] + rewrite_args(rest)
        } else if has_prefix(s, "-I"@) && s.len() > 2 {
            seq!["/I"@ + after2(s)] + rewrite_args(rest)
        } else if s == "-I"@ {
            if rest.len() > 0 {
                seq!["/I"@ + rest[0]] + rewrite_args(rest.subrange(1, rest.len() as int))
            } else {
                Seq::empty()
            }
        } else if has_prefix(s, "-D"@) && s.len() > 2 {
            seq!["/D"@ + after2(s)] + rewrite_args(rest)
        } else if is_std_switch(s) {
            seq!["/std:c++17"@] + rewrite_args(rest)
        } else if has_prefix(s, "-O"@) {
            seq![opt_switch(after2(s))] + rewrite_args(rest)
        } else if s == "-g"@ {
            seq!["/Zi"@] + rewrite_args(rest)
        } else if s == "-MMD"@ {
            rewrite_args(rest)
        } else if s == "-MF"@ {
            if rest.len() > 0 {
                rewrite_args(rest.subrange(1, rest.len() as int))
            } else {
                Seq::empty()
            }
        } else if s == "-flto"@ {
            seq!["/GL"@, "-fuse-ld=lld"@] + rewrite_args(rest)
        } else {
            seq![s] + rewrite_args(rest)
        }
    }
}

/// Some argument is an output-path switch.
pub open spec fn has_output_switch(v: Seq<Seq<char>>) -> bool {
    exists|i: int| 0 <= i < v.len() && has_prefix(#[trigger] v[i], "/Fo"@)
}

/// The full rewriting: the rewritten arguments, then an output-path
/// switch for `output` if none was produced, a compile-only switch if none
/// was produced, and the exception-handling switch.
pub open spec fn msvc_args(args: Seq<Seq<char>>, output: Seq<char>) -> Seq<Seq<char>> {
    let a = rewrite_args(args);
    let b = if has_output_switch(a) {
        a
    } else {
        a.push("/Fo"@ + output)
    };
    let c = if holds(b, "/c"@) {
        b
    } else {
        b.push("/c"@)
    };
    c.push("/EHsc"@)
}

/// Whether some argument starts with `p`.
fn any_starts_with(v: &Vec<String>, p: &str) -> (r: bool)
    ensures
        r == exists|i: int| 0 <= i < v@.len() && has_prefix(#[trigger] views(v@)[i], p@),
{
    let mut i: usize = 0;
    while i < v.len()
        invariant
            i <= v@.len(),
            forall|k: int| 0 <= k < i ==> !has_prefix(#[trigger] views(v@)[k], p@),
        decreases v@.len() - i,
    {
        if starts_with(v[i].as_str(), p) {
            assert(has_prefix(views(v@)[i as int], p@));
            return true;
        }
        i = i + 1;
    }
    false
}

/// Appends one string, keeping the views in step.
fn push_view(out: &mut Vec<String>, s: String)
    ensures
        views(final(out)@) == views(old(out)@).push(s@),
{
    out.push(s);
    assert(views(final(out)@) =~= views(old(out)@).push(s@));
}

/// Rewrites baseline compiler arguments for the alternate flavour. Each
/// recognised switch maps one-for-one; `-o`, `-I` and `-MF` take the next
/// argument with them; dependency-file switches are dropped; an output
/// switch naming `output` and a compile-only switch are added if missing,
/// and the exception-handling switch always.
pub fn convert_args_for_msvc(args: &Vec<String>, output: &str) -> (r: Vec<String>)
    ensures
        views(r@) == msvc_args(views(args@), output@),
{
    let ghost all = views(args@);
    let mut out: Vec<String> = Vec::new();
    let mut i: usize = 0;
    assert(views(out@) =~= Seq::<Seq<char>>::empty());
    assert(all.subrange(0, all.len() as int) =~= all);
    while i < args.len()
        invariant
            i <= args@.len(),
            all == views(args@),
            views(out@) + rewrite_args(all.subrange(i as int, all.len() as int)) == rewrite_args(all),
        decreases args@.len() - i,
    {
        let ghost rest_i = all.subrange(i as int, all.len() as int);
        let ghost o0 = views(out@);
        let ghost rest = rest_i.subrange(1, rest_i.len() as int);
        assert(rest =~= all.subrange(i + 1, all.len() as int));
        assert(rest_i[0] == args@[i as int]@);
        let s = args[i].as_str();
        let n = s.unicode_len();
        if str_eq(s, "-c") {
            push_view(&mut out, String::from_str("/c"));
            assert(seq!["/c"@] + rewrite_args(rest) == rewrite_args(rest_i));
            assert(o0 + rewrite_args(rest_i) =~= views(out@) + rewrite_args(rest));
            i = i + 1;
        } else if str_eq(s, "-o") {
            if i + 1 < args.len() {
                let ghost rest2 = rest.subrange(1, rest.len() as int);
                assert(rest2 =~= all.subrange(i + 2, all.len() as int));
                assert(rest[0] == args@[i + 1]@);
                push_view(&mut out, join2("/Fo", args[i + 1].as_str()));
                assert(o0 + rewrite_args(rest_i) =~= views(out@) + rewrite_args(rest2));
                i = i + 2;
            } else {
                assert(rewrite_args(rest_i) =~= Seq::<Seq<char>>::empty());
                assert(all.subrange(args@.len() as int, all.len() as int) =~= Seq::<Seq<char>>::empty());
                assert(views(out@) + rewrite_args(Seq::<Seq<char>>::empty()) =~= views(out@));
                i = args.len();
            }
        } else if starts_with(s, "-o") && n > 2 {
            let t = tail_from(s, 2);
            push_view(&mut out, join2("/Fo", t.as_str()));
            assert(o0 + rewrite_args(rest_i) =~= views(out@) + rewrite_args(rest));
            i = i + 1;
        } else if starts_with(s, "-I") && n > 2 {
            let t = tail_from(s, 2);
            push_view(&mut out, join2("/I", t.as_str()));
            assert(o0 + rewrite_args(rest_i) =~= views(out@) + rewrite_args(rest));
            i = i + 1;
        } else if str_eq(s, "-I") {
            if i + 1 < args.len() {
                let ghost rest2 = rest.subrange(1, rest.len() as int);
                assert(rest2 =~= all.subrange(i + 2, all.len() as int));
                assert(rest[0] == args@[i + 1]@);
                push_view(&mut out, join2("/I", args[i + 1].as_str()));
                assert(o0 + rewrite_args(rest_i) =~= views(out@) + rewrite_args(rest2));
                i = i + 2;
            } else {
                assert(rewrite_args(rest_i) =~= Seq::<Seq<char>>::empty());
                assert(all.subrange(args@.len() as int, all.len() as int) =~= Seq::<Seq<char>>::empty());
                assert(views(out@) + rewrite_args(Seq::<Seq<char>>::empty()) =~= views(out@));
                i = args.len();
            }
        } else if starts_with(s, "-D") && n > 2 {
            let t = tail_from(s, 2);
            push_view(&mut out, join2("/D", t.as_str()));
            assert(o0 + rewrite_args(rest_i) =~= views(out@) + rewrite_args(rest));
            i = i + 1;
        } else if str_eq(s, "-std=c++17") || str_eq(s, "-std=gnu++17") || str_eq(s, "-std=gnu++2a")
            || str_eq(s, "-std=c++2a") {
            push_view(&mut out, String::from_str("/std:c++17"));
            assert(o0 + rewrite_args(rest_i) =~= views(out@) + rewrite_args(rest));
            i = i + 1;
        } else if starts_with(s, "-O") {
            proof {
                reveal_strlit("-O");
            }
            let lvl = tail_from(s, 2);
            let sw = if str_eq(lvl.as_str(), "0") {
                String::from_str("/Od")
            } else if str_eq(lvl.as_str(), "1") {
                String::from_str("/O1")
            } else {
                String::from_str("/O2")
            };
            push_view(&mut out, sw);
            assert(o0 + rewrite_args(rest_i) =~= views(out@) + rewrite_args(rest));
            i = i + 1;
        } else if str_eq(s, "-g") {
            push_view(&mut out, String::from_str("/Zi"));
            assert(o0 + rewrite_args(rest_i) =~= views(out@) + rewrite_args(rest));
            i = i + 1;
        } else if str_eq(s, "-MMD") {
            assert(o0 + rewrite_args(rest_i) =~= views(out@) + rewrite_args(rest));
            i = i + 1;
        } else if str_eq(s, "-MF") {
            if i + 1 < args.len() {
                let ghost rest2 = rest.subrange(1, rest.len() as int);
                assert(rest2 =~= all.subrange(i + 2, all.len() as int));
                assert(o0 + rewrite_args(rest_i) =~= views(out@) + rewrite_args(rest2));
                i = i + 2;
            } else {
                assert(rewrite_args(rest_i) =~= Seq::<Seq<char>>::empty());
                assert(all.subrange(args@.len() as int, all.len() as int) =~= Seq::<Seq<char>>::empty());
                assert(views(out@) + rewrite_args(Seq::<Seq<char>>::empty()) =~= views(out@));
                i = args.len();
            }
        } else if str_eq(s, "-flto") {
            push_view(&mut out, String::from_str("/GL"));
            push_view(&mut out, String::from_str("-fuse-ld=lld"));
            assert(o0 + rewrite_args(rest_i) =~= views(out@) + rewrite_args(rest));
            i = i + 1;
        } else {
            push_view(&mut out, String::from_str(s));
            assert(o0 + rewrite_args(rest_i) =~= views(out@) + rewrite_args(rest));
            i = i + 1;
        }
    }
    assert(all.subrange(i as int, all.len() as int) =~= Seq::<Seq<char>>::empty());
    assert(views(out@) =~= rewrite_args(all));
    if !any_starts_with(&out, "/Fo") {
        push_view(&mut out, join2("/Fo", output));
    }
    if !crate::text::vec_holds(&out, "/c") {
        push_view(&mut out, String::from_str("/c"));
    }
    push_view(&mut out, String::from_str("/EHsc"));
    out
}

/// No argument is a dependency-file switch.
pub open spec fn free_of_depfile_switches(v: Seq<Seq<char>>) -> bool {
    forall|i: int| 0 <= i < v.len() ==> #[trigger] v[i] != "-MMD"@ && v[i] != "-MF"@
}

/// A string that starts with `/` is no dependency-file switch.
proof fn lemma_slash_not_depfile(x: Seq<char>)
    requires
        x.len() > 0,
        x[0] == '/',
    ensures
        x != "-MMD"@,
        x != "-MF"@,
{
    reveal_strlit("-MMD");
    reveal_strlit("-MF");
    if x == "-MMD"@ {
        assert(x[0] == '-');
    }
    if x == "-MF"@ {
        assert(x[0] == '-');
    }
}

/// A switch prefix followed by anything starts with `/`.
proof fn lemma_slash_prefixed(p: Seq<char>, x: Seq<char>)
    requires
        p.len() > 0,
        p[0] == '/',
    ensures
        (p + x).len() > 0,
        (p + x)[0] == '/',
{
}

proof fn lemma_free_cons(a: Seq<char>, t: Seq<Seq<char>>)
    requires
        a != "-MMD"@,
        a != "-MF"@,
        free_of_depfile_switches(t),
    ensures
        free_of_depfile_switches(seq![a] + t),
{
    assert forall|i: int| 0 <= i < (seq![a] + t).len() implies #[trigger] (seq![a] + t)[i] != "-MMD"@
        && (seq![a] + t)[i] != "-MF"@ by {
        if i > 0 {
            assert((seq![a] + t)[i] == t[i - 1]);
        }
    }
}

/// The rewriting never leaves a dependency-file switch behind.
pub proof fn lemma_rewrite_drops_depfile_switches(args: Seq<Seq<char>>)
    ensures
        free_of_depfile_switches(rewrite_args(args)),
    decreases args.len(),
{
    reveal_strlit("/c");
    reveal_strlit("/Fo");
    reveal_strlit("/I");
    reveal_strlit("/D");
    reveal_strlit("/std:c++17");
    reveal_strlit("/Od");
    reveal_strlit("/O1");
    reveal_strlit("/O2");
    reveal_strlit("/Zi");
    reveal_strlit("/GL");
    reveal_strlit("-fuse-ld=lld");
    reveal_strlit("-MMD");
    reveal_strlit("-MF");
    if args.len() > 0 {
        let s = args[0];
        let rest = args.subrange(1, args.len() as int);
        lemma_rewrite_drops_depfile_switches(rest);
        if rest.len() > 0 {
            lemma_rewrite_drops_depfile_switches(rest.subrange(1, rest.len() as int));
        }
        if s == "-c"@ {
            lemma_slash_not_depfile("/c"@);
            lemma_free_cons("/c"@, rewrite_args(rest));
        } else if s == "-o"@ {
            if rest.len() > 0 {
                lemma_slash_prefixed("/Fo"@, rest[0]);
                lemma_slash_not_depfile("/Fo"@ + rest[0]);
                lemma_free_cons("/Fo"@ + rest[0], rewrite_args(rest.subrange(1, rest.len() as int)));
            }
        } else if has_prefix(s, "-o"@) && s.len() > 2 {
            lemma_slash_prefixed("/Fo"@, after2(s));
            lemma_slash_not_depfile("/Fo"@ + after2(s));
            lemma_free_cons("/Fo"@ + after2(s), rewrite_args(rest));
        } else if has_prefix(s, "-I"@) && s.len() > 2 {
            lemma_slash_prefixed("/I"@, after2(s));
            lemma_slash_not_depfile("/I"@ + after2(s));
            lemma_free_cons("/I"@ + after2(s), rewrite_args(rest));
        } else if s == "-I"@ {
            if rest.len() > 0 {
                lemma_slash_prefixed("/I"@, rest[0]);
                lemma_slash_not_depfile("/I"@ + rest[0]);
                lemma_free_cons("/I"@ + rest[0], rewrite_args(rest.subrange(1, rest.len() as int)));
            }
        } else if has_prefix(s, "-D"@) && s.len() > 2 {
            lemma_slash_prefixed("/D"@, after2(s));
            lemma_slash_not_depfile("/D"@ + after2(s));
            lemma_free_cons("/D"@ + after2(s), rewrite_args(rest));
        } else if is_std_switch(s) {
            lemma_slash_not_depfile("/std:c++17"@);
            lemma_free_cons("/std:c++17"@, rewrite_args(rest));
        } else if has_prefix(s, "-O"@) {
            let o = opt_switch(after2(s));
            lemma_slash_not_depfile(o);
            lemma_free_cons(o, rewrite_args(rest));
        } else if s == "-g"@ {
            lemma_slash_not_depfile("/Zi"@);
            lemma_free_cons("/Zi"@, rewrite_args(rest));
        } else if s == "-MMD"@ {
        } else if s == "-MF"@ {
        } else if s == "-flto"@ {
            lemma_slash_not_depfile("/GL"@);
            assert("-fuse-ld=lld"@.len() != "-MMD"@.len());
            assert("-fuse-ld=lld"@.len() != "-MF"@.len());
            lemma_free_cons("-fuse-ld=lld"@, rewrite_args(rest));
            lemma_free_cons("/GL"@, seq!["-fuse-ld=lld"@] + rewrite_args(rest));
            assert(seq!["/GL"@, "-fuse-ld=lld"@] + rewrite_args(rest) =~= seq!["/GL"@] + (seq![
                "-fuse-ld=lld"@,
            ] + rewrite_args(rest)));
        } else {
            lemma_free_cons(s, rewrite_args(rest));
        }
    }
}

/// Rewriting any argument list for the alternate flavour yields an
/// output-path switch and a compile-only switch, and leaves no
/// dependency-file switch (`-MMD`, `-MF`) behind.
pub proof fn lemma_msvc_rewrite_shape(args: Seq<Seq<char>>, output: Seq<char>)
    ensures
        has_output_switch(msvc_args(args, output)),
        holds(msvc_args(args, output), "/c"@),
        !holds(msvc_args(args, output), "-MMD"@),
        !holds(msvc_args(args, output), "-MF"@),
{
    reveal_strlit("/c");
    reveal_strlit("/Fo");
    reveal_strlit("/EHsc");
    let a = rewrite_args(args);
    lemma_rewrite_drops_depfile_switches(args);
    let fo = "/Fo"@ + output;
    assert(has_prefix(fo, "/Fo"@)) by {
        assert(fo.subrange(0, 3) =~= "/Fo"@);
    }
    let b = if has_output_switch(a) {
        a
    } else {
        a.push(fo)
    };
    assert(has_output_switch(b)) by {
        if !has_output_switch(a) {
            assert(has_prefix(b[a.len() as int], "/Fo"@));
        }
    }
    lemma_slash_prefixed("/Fo"@, output);
    lemma_slash_not_depfile(fo);
    assert(free_of_depfile_switches(b)) by {
        if !has_output_switch(a) {
            assert forall|i: int| 0 <= i < b.len() implies #[trigger] b[i] != "-MMD"@ && b[i] != "-MF"@ by {
                if i < a.len() {
                    assert(b[i] == a[i]);
                }
            }
        }
    }
    let c = if holds(b, "/c"@) {
        b
    } else {
        b.push("/c"@)
    };
    lemma_slash_not_depfile("/c"@);
    lemma_slash_not_depfile("/EHsc"@);
    let d = c.push("/EHsc"@);
    assert(d == msvc_args(args, output));
    assert(holds(c, "/c"@)) by {
        if !holds(b, "/c"@) {
            assert(c[b.len() as int] == "/c"@);
        }
    }
    assert(has_output_switch(c)) by {
        let i = choose|i: int| 0 <= i < b.len() && has_prefix(#[trigger] b[i], "/Fo"@);
        assert(c[i] == b[i]);
    }
    assert(has_output_switch(d)) by {
        let i = choose|i: int| 0 <= i < c.len() && has_prefix(#[trigger] c[i], "/Fo"@);
        assert(d[i] == c[i]);
    }
    assert(holds(d, "/c"@)) by {
        let i = choose|i: int| 0 <= i < c.len() && c[i] == "/c"@;
        assert(d[i] == c[i]);
    }
    assert(free_of_depfile_switches(c)) by {
        assert forall|i: int| 0 <= i < c.len() implies #[trigger] c[i] != "-MMD"@ && c[i] != "-MF"@ by {
            if i < b.len() {
                assert(c[i] == b[i]);
            }
        }
    }
    assert(free_of_depfile_switches(d)) by {
        assert forall|i: int| 0 <= i < d.len() implies #[trigger] d[i] != "-MMD"@ && d[i] != "-MF"@ by {
            if i < c.len() {
                assert(d[i] == c[i]);
            }
        }
    }
}

} // verus!
