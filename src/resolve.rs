//! Configuration resolution: choosing the target that best fits the host
//! and laying its overrides over the package, toolchain and profile. Hook
//! commands are not run here; resolution returns them in the order in
//! which they must run.

use crate::config::{
    entry_for, lemma_entry_absent, lemma_entry_at, over, over_all, BuildProfile, Config,
    PackageConfig, Target, ToolchainConfig, ToolchainHooks,
};
use crate::text::{pick_string, pick_strings, position_of, str_eq, views};
use vstd::prelude::*;
use vstd::string::*;

verus! {

/// Why configuration resolution failed.
#[derive(Debug)]
pub enum ConfigError {
    ProfileNotFound(String),
}

/// The outcome of resolution: the effective package, toolchain and
/// profile, and the hook commands to run, in order.
#[derive(Debug)]
pub struct ResolvedConfig {
    pub package: PackageConfig,
    pub toolchain: ToolchainConfig,
    pub profile: BuildProfile,
    pub hooks: Vec<String>,
}

/// A target applies on this host: each constraint it names is met.
pub open spec fn target_matches(t: Target, os: Seq<char>, arch: Seq<char>) -> bool {
    &&& (t.os is None || t.os.unwrap()@ == os)
    &&& (t.arch is None || t.arch.unwrap()@ == arch)
}

/// How specific a target is: one point for an OS, two for an architecture.
pub open spec fn target_score(t: Target) -> int {
    (if t.os is Some {
        1int
    } else {
        0int
    }) + (if t.arch is Some {
        2int
    } else {
        0int
    })
}

/// Target `i` applies, scores highest among those that apply, and comes
/// first among those with its score.
pub open spec fn is_best_target(targets: Seq<(String, Target)>, os: Seq<char>, arch: Seq<char>, i: int) -> bool {
    &&& 0 <= i < targets.len()
    &&& target_matches(targets[i].1, os, arch)
    &&& forall|j: int|
        0 <= j < targets.len() && #[trigger] target_matches(targets[j].1, os, arch) ==> target_score(
            targets[j].1,
        ) <= target_score(targets[i].1)
    &&& forall|j: int|
        0 <= j < i && #[trigger] target_matches(targets[j].1, os, arch) ==> target_score(targets[j].1)
            < target_score(targets[i].1)
}

/// The target that resolution uses, if any applies.
pub open spec fn best_target(targets: Seq<(String, Target)>, os: Seq<char>, arch: Seq<char>) -> Option<Target> {
    if exists|i: int| is_best_target(targets, os, arch, i) {
        Some(targets[choose|i: int| is_best_target(targets, os, arch, i)].1)
    } else {
        None
    }
}

/// At most one target is the best one.
pub proof fn lemma_best_unique(targets: Seq<(String, Target)>, os: Seq<char>, arch: Seq<char>, i: int, j: int)
    requires
        is_best_target(targets, os, arch, i),
        is_best_target(targets, os, arch, j),
    ensures
        i == j,
{
    if i < j {
        assert(target_matches(targets[i].1, os, arch));
    } else if j < i {
        assert(target_matches(targets[j].1, os, arch));
    }
}

/// Whether `t` applies on the host `os`/`arch`.
pub fn target_applies(t: &Target, os: &str, arch: &str) -> (r: bool)
    ensures
        r == target_matches(*t, os@, arch@),
{
    let os_ok = match &t.os {
        Some(o) => str_eq(o.as_str(), os),
        None => true,
    };
    let arch_ok = match &t.arch {
        Some(a) => str_eq(a.as_str(), arch),
        None => true,
    };
    os_ok && arch_ok
}

/// The specificity score of a target.
pub fn score_of(t: &Target) -> (r: u8)
    ensures
        r as int == target_score(*t),
{
    let a: u8 = if t.os.is_some() {
        1
    } else {
        0
    };
    let b: u8 = if t.arch.is_some() {
        2
    } else {
        0
    };
    a + b
}

/// The position of the best-fitting target for the host, if any applies.
/// Among equally specific targets the first declared wins.
pub fn select_target(targets: &Vec<(String, Target)>, os: &str, arch: &str) -> (r: Option<usize>)
    ensures
        match r {
            Some(i) => is_best_target(targets@, os@, arch@, i as int),
            None => forall|j: int|
                0 <= j < targets@.len() ==> !#[trigger] target_matches(targets@[j].1, os@, arch@),
        },
{
    let mut best: Option<usize> = None;
    let mut best_score: u8 = 0;
    let mut i: usize = 0;
    while i < targets.len()
        invariant
            i <= targets@.len(),
            match best {
                Some(b) => {
                    &&& b < i
                    &&& target_matches(targets@[b as int].1, os@, arch@)
                    &&& best_score as int == target_score(targets@[b as int].1)
                    &&& forall|j: int|
                        0 <= j < i && #[trigger] target_matches(targets@[j].1, os@, arch@)
                            ==> target_score(targets@[j].1) <= best_score
                    &&& forall|j: int|
                        0 <= j < b && #[trigger] target_matches(targets@[j].1, os@, arch@)
                            ==> target_score(targets@[j].1) < best_score
                },
                None => forall|j: int|
                    0 <= j < i ==> !#[trigger] target_matches(targets@[j].1, os@, arch@),
            },
        decreases targets@.len() - i,
    {
        let t = &targets[i].1;
        if target_applies(t, os, arch) {
            let s = score_of(t);
            match best {
                None => {
                    best = Some(i);
                    best_score = s;
                },
                Some(_) => {
                    if s > best_score {
                        best = Some(i);
                        best_score = s;
                    }
                },
            }
        }
        i = i + 1;
    }
    best
}

/// The items of an optional list, or none.
pub open spec fn listed(o: Option<Vec<String>>) -> Seq<Seq<char>> {
    match o {
        Some(v) => views(v@),
        None => Seq::empty(),
    }
}

/// The hooks a target contributes, in order: its own pre hooks, its
/// toolchain override's pre and post hooks, its own post hooks.
pub open spec fn target_hooks(t: Target) -> Seq<Seq<char>> {
    listed(t.hooks.pre_execute) + match t.toolchain {
        Some(ov) => listed(ov.hooks.pre_execute) + listed(ov.hooks.post_execute),
        None => Seq::empty(),
    } + listed(t.hooks.post_execute)
}

/// All hooks of a resolution, in order: the toolchain's pre hooks, those
/// of the chosen target, the toolchain's post hooks.
pub open spec fn hook_plan(base: ToolchainHooks, t: Option<Target>) -> Seq<Seq<char>> {
    listed(base.pre_execute) + match t {
        Some(t) => target_hooks(t),
        None => Seq::empty(),
    } + listed(base.post_execute)
}

/// The package with the fields `t` sets replaced.
pub open spec fn package_over(base: PackageConfig, t: Option<Target>, r: PackageConfig) -> bool {
    match t {
        None => r.same(&base),
        Some(t) => {
            &&& r.name@ == over(t.name, base.name)
            &&& r.version@ == base.version@
            &&& r.output_type == (match t.output_type {
                Some(o) => o,
                None => base.output_type,
            })
            &&& views(r.sources@) == over_all(t.sources, base.sources)
            &&& views(r.includes@) == over_all(t.includes, base.includes)
            &&& views(r.libs@) == over_all(t.libs, base.libs)
            &&& views(r.lib_dirs@) == over_all(t.lib_dirs, base.lib_dirs)
        },
    }
}

/// The profile with the fields `t` sets replaced.
pub open spec fn profile_over(base: BuildProfile, t: Option<Target>, r: BuildProfile) -> bool {
    match t {
        None => r.same(&base),
        Some(t) => {
            &&& r.opt_level == (match t.opt_level {
                Some(o) => o,
                None => base.opt_level,
            })
            &&& views(r.defines@) == over_all(t.defines, base.defines)
            &&& r.lto == (match t.lto {
                Some(o) => o,
                None => base.lto,
            })
            &&& views(r.flags@) == over_all(t.flags, base.flags)
            &&& r.incremental == (match t.incremental {
                Some(o) => o,
                None => base.incremental,
            })
        },
    }
}

/// The toolchain with the fields of `t`'s toolchain override replaced;
/// its hooks stay those of the base.
pub open spec fn toolchain_over(base: ToolchainConfig, t: Option<Target>, r: ToolchainConfig) -> bool {
    &&& r.hooks.same(&base.hooks)
    &&& match t {
        Some(t) => match t.toolchain {
            Some(ov) => base.overridden_by(&ov, &r),
            None => r.same(&base),
        },
        None => r.same(&base),
    }
}

/// Appends the items of an optional list.
fn push_listed(out: &mut Vec<String>, src: &Option<Vec<String>>)
    ensures
        views(final(out)@) == views(old(out)@) + listed(*src),
{
    match src {
        Some(v) => {
            let mut i: usize = 0;
            while i < v.len()
                invariant
                    i <= v@.len(),
                    views(out@) == views(old(out)@) + views(v@).subrange(0, i as int),
                decreases v@.len() - i,
            {
                let ghost prev = out@;
                let s = String::from_str(v[i].as_str());
                out.push(s);
                assert(views(out@) =~= views(prev).push(v@[i as int]@));
                assert(views(v@).subrange(0, i + 1) =~= views(v@).subrange(0, i as int).push(
                    v@[i as int]@,
                ));
                i = i + 1;
            }
            assert(views(v@).subrange(0, i as int) =~= views(v@));
        },
        None => {
            assert(views(out@) =~= views(out@) + Seq::<Seq<char>>::empty());
        },
    }
}

/// The toolchain with an override's tool fields applied, hooks kept.
fn apply_toolchain_override(base: &ToolchainConfig, t: &Target) -> (r: ToolchainConfig)
    ensures
        toolchain_over(*base, Some(*t), r),
{
    match &t.toolchain {
        None => base.copy(),
        Some(ov) => ToolchainConfig {
            compiler: pick_string(&ov.compiler, &base.compiler),
            compiler_flags: pick_strings(&ov.compiler_flags, &base.compiler_flags),
            linker: pick_string(&ov.linker, &base.linker),
            linker_flags: pick_strings(&ov.linker_flags, &base.linker_flags),
            archiver: pick_string(&ov.archiver, &base.archiver),
            archiver_flags: pick_strings(&ov.archiver_flags, &base.archiver_flags),
            hooks: base.hooks.copy(),
        },
    }
}

/// The package with a target's fields applied.
fn apply_package_override(base: &PackageConfig, t: &Target) -> (r: PackageConfig)
    ensures
        package_over(*base, Some(*t), r),
{
    PackageConfig {
        name: pick_string(&t.name, &base.name),
        version: String::from_str(base.version.as_str()),
        output_type: match t.output_type {
            Some(o) => o,
            None => base.output_type,
        },
        sources: pick_strings(&t.sources, &base.sources),
        includes: pick_strings(&t.includes, &base.includes),
        libs: pick_strings(&t.libs, &base.libs),
        lib_dirs: pick_strings(&t.lib_dirs, &base.lib_dirs),
    }
}

/// The profile with a target's fields applied.
fn apply_profile_override(base: &BuildProfile, t: &Target) -> (r: BuildProfile)
    ensures
        profile_over(*base, Some(*t), r),
{
    BuildProfile {
        opt_level: match t.opt_level {
            Some(o) => o,
            None => base.opt_level,
        },
        defines: pick_strings(&t.defines, &base.defines),
        lto: match t.lto {
            Some(o) => o,
            None => base.lto,
        },
        flags: pick_strings(&t.flags, &base.flags),
        incremental: match t.incremental {
            Some(o) => o,
            None => base.incremental,
        },
    }
}

/// Resolves the effective configuration for `profile_name` on the host
/// `os`/`arch`. Fails exactly when the profile is not declared. On
/// success the best-fitting target's overrides are laid over the base,
/// and `hooks` lists every hook command in the order it must run.
pub fn resolve_config(config: &Config, profile_name: &str, os: &str, arch: &str) -> (r: Result<ResolvedConfig, ConfigError>)
    requires
        config.wf(),
    ensures
        match entry_for(config.profiles@, profile_name@) {
            None => r matches Err(ConfigError::ProfileNotFound(n)) && n@ == profile_name@,
            Some(p) => r matches Ok(res) && {
                let t = best_target(config.targets@, os@, arch@);
                &&& package_over(config.package, t, res.package)
                &&& toolchain_over(config.toolchain, t, res.toolchain)
                &&& profile_over(p, t, res.profile)
                &&& views(res.hooks@) == hook_plan(config.toolchain.hooks, t)
            },
        },
{
    let pi = position_of(&config.profiles, profile_name);
    let pi = match pi {
        None => {
            proof {
                lemma_entry_absent(config.profiles@, profile_name@);
            }
            return Err(ConfigError::ProfileNotFound(String::from_str(profile_name)));
        },
        Some(i) => i,
    };
    proof {
        lemma_entry_at(config.profiles@, profile_name@, pi as int);
    }
    let base_profile = &config.profiles[pi].1;
    let ti = select_target(&config.targets, os, arch);
    let mut hooks: Vec<String> = Vec::new();
    assert(views(hooks@) =~= Seq::<Seq<char>>::empty());
    push_listed(&mut hooks, &config.toolchain.hooks.pre_execute);
    let res = match ti {
        None => {
            proof {
                if exists|i: int| is_best_target(config.targets@, os@, arch@, i) {
                    let i = choose|i: int| is_best_target(config.targets@, os@, arch@, i);
                    assert(target_matches(config.targets@[i].1, os@, arch@));
                }
            }
            push_listed(&mut hooks, &config.toolchain.hooks.post_execute);
            assert(views(hooks@) =~= hook_plan(config.toolchain.hooks, None));
            let tc = config.toolchain.copy();
            ResolvedConfig {
                package: config.package.copy(),
                toolchain: tc,
                profile: base_profile.copy(),
                hooks,
            }
        },
        Some(i) => {
            let t = &config.targets[i].1;
            proof {
                let k = choose|k: int| is_best_target(config.targets@, os@, arch@, k);
                lemma_best_unique(config.targets@, os@, arch@, i as int, k);
            }
            let ghost h0 = views(hooks@);
            push_listed(&mut hooks, &t.hooks.pre_execute);
            match &t.toolchain {
                Some(ov) => {
                    push_listed(&mut hooks, &ov.hooks.pre_execute);
                    push_listed(&mut hooks, &ov.hooks.post_execute);
                },
                None => {},
            }
            push_listed(&mut hooks, &t.hooks.post_execute);
            push_listed(&mut hooks, &config.toolchain.hooks.post_execute);
            assert(views(hooks@) =~= hook_plan(config.toolchain.hooks, Some(*t)));
            ResolvedConfig {
                package: apply_package_override(&config.package, t),
                toolchain: apply_toolchain_override(&config.toolchain, t),
                profile: apply_profile_override(base_profile, t),
                hooks,
            }
        },
    };
    Ok(res)
}

} // verus!
