//! The incremental build cache and the decisions of the compilation
//! scheduler: which sources must be compiled, and how the outcomes of the
//! dispatched compilations combine into object files and a new cache.

use crate::config::{entry_for, lemma_entry_absent, lemma_entry_at};
use crate::text::{keys_unique, position_of, views};
use vstd::prelude::*;
use vstd::string::*;

verus! {

/// What the cache records for one source file.
#[derive(Debug)]
pub struct CacheEntry {
    pub source_hash: u64,
    pub flags_hash: u64,
    pub deps_hash: u64,
    pub obj_path: String,
}

/// The content of a cache entry.
pub open spec fn entry_view(e: CacheEntry) -> (u64, u64, u64, Seq<char>) {
    (e.source_hash, e.flags_hash, e.deps_hash, e.obj_path@)
}

/// The content of a list of keyed cache entries.
pub open spec fn cache_view(entries: Seq<(String, CacheEntry)>) -> Seq<(Seq<char>, (u64, u64, u64, Seq<char>))> {
    entries.map_values(|e: (String, CacheEntry)| (e.0@, entry_view(e.1)))
}

impl CacheEntry {
    pub fn copy(&self) -> (r: Self)
        ensures
            entry_view(r) == entry_view(*self),
    {
        CacheEntry {
            source_hash: self.source_hash,
            flags_hash: self.flags_hash,
            deps_hash: self.deps_hash,
            obj_path: String::from_str(self.obj_path.as_str()),
        }
    }
}

/// A mapping from source path to cache entry, kept as a list of entries
/// with unique keys.
#[derive(Debug)]
pub struct BuildCache {
    pub entries: Vec<(String, CacheEntry)>,
}

impl BuildCache {
    pub open spec fn wf(&self) -> bool {
        keys_unique(self.entries@)
    }

    /// The entry recorded for `key`.
    pub open spec fn lookup(&self, key: Seq<char>) -> Option<CacheEntry> {
        entry_for(self.entries@, key)
    }

    /// An empty cache.
    pub fn new() -> (r: Self)
        ensures
            r.wf(),
            r.entries@.len() == 0,
    {
        BuildCache { entries: Vec::new() }
    }

    /// The number of sources recorded.
    pub fn len(&self) -> (r: usize)
        ensures
            r == self.entries@.len(),
    {
        self.entries.len()
    }

    /// The entry recorded for `key`, if any.
    pub fn get(&self, key: &str) -> (r: Option<&CacheEntry>)
        requires
            self.wf(),
        ensures
            match r {
                Some(e) => self.lookup(key@) == Some(*e),
                None => self.lookup(key@).is_none(),
            },
    {
        match position_of(&self.entries, key) {
            Some(i) => {
                proof {
                    lemma_entry_at(self.entries@, key@, i as int);
                }
                Some(&self.entries[i].1)
            },
            None => {
                proof {
                    lemma_entry_absent(self.entries@, key@);
                }
                None
            },
        }
    }

    /// Records `entry` for `key`, replacing what was recorded for it.
    pub fn insert(&mut self, key: String, entry: CacheEntry)
        requires
            old(self).wf(),
        ensures
            final(self).wf(),
            final(self).lookup(key@) == Some(entry),
            forall|k: Seq<char>| k != key@ ==> #[trigger] final(self).lookup(k) == old(self).lookup(k),
    {
        let ghost k0 = key@;
        let ghost before = self.entries@;
        match position_of(&self.entries, key.as_str()) {
            Some(i) => {
                self.entries.set(i, (key, entry));
                proof {
                    let after = self.entries@;
                    assert forall|a: int, b: int|
                        0 <= a < after.len() && 0 <= b < after.len() && a != b implies #[trigger] after[a].0@
                        != #[trigger] after[b].0@ by {
                        if a != i as int && b != i as int {
                            assert(after[a] == before[a] && after[b] == before[b]);
                        } else if a == i as int {
                            assert(after[b] == before[b]);
                            assert(before[i as int].0@ == k0);
                        } else {
                            assert(after[a] == before[a]);
                            assert(before[i as int].0@ == k0);
                        }
                    }
                    lemma_entry_at(after, k0, i as int);
                    assert forall|k: Seq<char>| k != k0 implies #[trigger] entry_for(after, k) == entry_for(before, k) by {
                        if exists|j: int| 0 <= j < before.len() && #[trigger] before[j].0@ == k {
                            let j = choose|j: int| 0 <= j < before.len() && #[trigger] before[j].0@ == k;
                            assert(j != i as int);
                            assert(after[j] == before[j]);
                            lemma_entry_at(before, k, j);
                            lemma_entry_at(after, k, j);
                        } else {
                            assert forall|j: int| 0 <= j < after.len() implies #[trigger] after[j].0@ != k by {
                                if j != i as int {
                                    assert(after[j] == before[j]);
                                }
                            }
                            lemma_entry_absent(after, k);
                        }
                    }
                }
            },
            None => {
                self.entries.push((key, entry));
                proof {
                    let after = self.entries@;
                    assert forall|a: int, b: int|
                        0 <= a < after.len() && 0 <= b < after.len() && a != b implies #[trigger] after[a].0@
                        != #[trigger] after[b].0@ by {
                        if a < before.len() {
                            assert(after[a] == before[a]);
                        }
                        if b < before.len() {
                            assert(after[b] == before[b]);
                        }
                    }
                    lemma_entry_at(after, k0, before.len() as int);
                    assert forall|k: Seq<char>| k != k0 implies #[trigger] entry_for(after, k) == entry_for(before, k) by {
                        if exists|j: int| 0 <= j < before.len() && #[trigger] before[j].0@ == k {
                            let j = choose|j: int| 0 <= j < before.len() && #[trigger] before[j].0@ == k;
                            assert(after[j] == before[j]);
                            lemma_entry_at(before, k, j);
                            lemma_entry_at(after, k, j);
                        } else {
                            assert forall|j: int| 0 <= j < after.len() implies #[trigger] after[j].0@ != k by {
                                if j < before.len() {
                                    assert(after[j] == before[j]);
                                }
                            }
                            lemma_entry_absent(after, k);
                        }
                    }
                }
            },
        }
    }
}

impl Default for BuildCache {
    fn default() -> (r: Self)
        ensures
            r.wf(),
            r.entries@.len() == 0,
    {
        BuildCache::new()
    }
}

/// What is known of one source file before the build decides on it: its
/// cache key (the path), the object it compiles to, the hash of its
/// contents and of its compiler invocation, whether the object the cache
/// records for it still exists, and the current combined hash of the
/// headers that object's dependency listing names (`None` where that
/// listing is missing or unreadable).
#[derive(Debug)]
pub struct SourceProbe {
    pub key: String,
    pub object: String,
    pub source_hash: u64,
    pub flags_hash: u64,
    pub recorded_object_exists: bool,
    pub header_hash: Option<u64>,
}

/// A recorded entry still stands for a source: all three hashes match the
/// fresh ones and the recorded object exists.
pub open spec fn entry_valid(e: CacheEntry, p: SourceProbe) -> bool {
    &&& e.source_hash == p.source_hash
    &&& e.flags_hash == p.flags_hash
    &&& p.header_hash == Some(e.deps_hash)
    &&& p.recorded_object_exists
}

/// The source may skip compilation: incremental mode is on and the cache
/// holds a valid entry for it.
pub open spec fn is_hit(entries: Seq<(String, CacheEntry)>, incremental: bool, p: SourceProbe) -> bool {
    incremental && match entry_for(entries, p.key@) {
        Some(e) => entry_valid(e, p),
        None => false,
    }
}

/// Whether a recorded entry still stands for a source.
pub fn is_cache_hit(entry: &CacheEntry, probe: &SourceProbe) -> (r: bool)
    ensures
        r == entry_valid(*entry, *probe),
        !probe.recorded_object_exists ==> !r,
{
    entry.source_hash == probe.source_hash && entry.flags_hash == probe.flags_hash && match probe.header_hash {
        Some(h) => h == entry.deps_hash,
        None => false,
    } && probe.recorded_object_exists
}

/// For each source, whether it must be compiled: every source when
/// incremental mode is off, else each one without a valid cache entry.
pub fn plan_compilation(old: &BuildCache, incremental: bool, sources: &Vec<SourceProbe>) -> (r: Vec<bool>)
    requires
        old.wf(),
    ensures
        r@.len() == sources@.len(),
        forall|i: int| 0 <= i < sources@.len() ==> #[trigger] r@[i] == !is_hit(old.entries@, incremental, sources@[i]),
{
    let mut r: Vec<bool> = Vec::new();
    let mut i: usize = 0;
    while i < sources.len()
        invariant
            old.wf(),
            i <= sources@.len(),
            r@.len() == i,
            forall|k: int| 0 <= k < i ==> #[trigger] r@[k] == !is_hit(old.entries@, incremental, sources@[k]),
        decreases sources@.len() - i,
    {
        let p = &sources[i];
        let hit = if incremental {
            match old.get(p.key.as_str()) {
                Some(e) => is_cache_hit(e, p),
                None => false,
            }
        } else {
            false
        };
        r.push(!hit);
        i = i + 1;
    }
    r
}

/// How one dispatched compilation ended.
#[derive(Debug)]
pub enum CompileOutcome {
    /// The object was produced; the hash of its headers as listed now.
    Compiled { header_hash: u64 },
    /// The compiler failed, with its diagnostic output.
    Failed { message: String },
}

/// The outcome of a build whose compilations all succeeded.
#[derive(Debug)]
pub struct CompileSuccess {
    /// Every source's object, in source order.
    pub objects: Vec<String>,
    /// The cache to store in place of the old one.
    pub cache: BuildCache,
    /// Whether that cache is to be stored (incremental mode).
    pub persist: bool,
}

/// The failure of a build in which some compilations failed.
#[derive(Debug)]
pub struct CompileFailure {
    /// The sources that failed, in source order.
    pub failed_sources: Vec<String>,
    /// Their diagnostics, in the same order.
    pub messages: Vec<String>,
}

/// Each failed source after a space.
pub open spec fn listed_sources(keys: Seq<Seq<char>>) -> Seq<char>
    decreases keys.len(),
{
    if keys.len() == 0 {
        Seq::empty()
    } else {
        listed_sources(keys.drop_last()) + " "@ + keys.last()
    }
}

impl CompileFailure {
    /// A one-line description naming the failed sources.
    pub fn describe(&self) -> (r: String)
        ensures
            r@ == "Compilation failed:"@ + listed_sources(views(self.failed_sources@)),
    {
        let mut r = String::from_str("Compilation failed:");
        let mut i: usize = 0;
        assert(views(self.failed_sources@).subrange(0, 0) =~= Seq::<Seq<char>>::empty());
        assert(r@ =~= "Compilation failed:"@ + listed_sources(Seq::<Seq<char>>::empty()));
        while i < self.failed_sources.len()
            invariant
                i <= self.failed_sources@.len(),
                r@ == "Compilation failed:"@ + listed_sources(views(self.failed_sources@).subrange(0, i as int)),
            decreases self.failed_sources@.len() - i,
        {
            r.append(" ");
            r.append(self.failed_sources[i].as_str());
            proof {
                let pre = views(self.failed_sources@).subrange(0, i + 1);
                assert(pre.drop_last() =~= views(self.failed_sources@).subrange(0, i as int));
                assert(pre.last() == self.failed_sources@[i as int]@);
            }
            i = i + 1;
        }
        assert(views(self.failed_sources@).subrange(0, i as int) =~= views(self.failed_sources@));
        r
    }
}

/// The number of compilation workers: the job count asked for, else the
/// execution units available, else one; never fewer than one.
pub fn worker_count(jobs: Option<usize>, available: Option<usize>) -> (r: usize)
    ensures
        r >= 1,
        r == match jobs {
            Some(j) => if j >= 1 {
                j
            } else {
                1
            },
            None => match available {
                Some(a) => if a >= 1 {
                    a
                } else {
                    1
                },
                None => 1,
            },
        },
{
    let n = match jobs {
        Some(j) => j,
        None => match available {
            Some(a) => a,
            None => 1,
        },
    };
    if n >= 1 {
        n
    } else {
        1
    }
}

/// The outcome is a failure.
pub open spec fn failed(o: Option<CompileOutcome>) -> bool {
    o matches Some(CompileOutcome::Failed { .. })
}

/// The header hash an outcome recorded.
pub open spec fn recorded_header_hash(o: Option<CompileOutcome>) -> u64 {
    match o {
        Some(CompileOutcome::Compiled { header_hash }) => header_hash,
        _ => 0,
    }
}

/// The keys of the sources whose compilation failed, in source order.
pub open spec fn failed_keys(sources: Seq<SourceProbe>, outcomes: Seq<Option<CompileOutcome>>) -> Seq<Seq<char>>
    decreases sources.len(),
{
    if sources.len() == 0 || outcomes.len() < sources.len() {
        Seq::empty()
    } else {
        let n = sources.len() - 1;
        let rest = failed_keys(sources.drop_last(), outcomes.subrange(0, n));
        if failed(outcomes[n]) {
            rest.push(sources[n].key@)
        } else {
            rest
        }
    }
}

/// The cache after a successful build: for each source in order, its old
/// entry where that still stood, else a fresh entry from its probe and
/// the header hash its compilation reported.
pub open spec fn next_cache(
    old: Seq<(String, CacheEntry)>,
    incremental: bool,
    sources: Seq<SourceProbe>,
    outcomes: Seq<Option<CompileOutcome>>,
) -> Seq<(Seq<char>, (u64, u64, u64, Seq<char>))> {
    Seq::new(
        sources.len(),
        |i: int|
            (
                sources[i].key@,
                if is_hit(old, incremental, sources[i]) {
                    entry_view(entry_for(old, sources[i].key@).unwrap())
                } else {
                    (
                        sources[i].source_hash,
                        sources[i].flags_hash,
                        recorded_header_hash(outcomes[i]),
                        sources[i].object@,
                    )
                },
            ),
    )
}

/// Source keys are pairwise distinct.
pub open spec fn distinct_keys(sources: Seq<SourceProbe>) -> bool {
    forall|i: int, j: int|
        0 <= i < sources.len() && 0 <= j < sources.len() && i != j ==> #[trigger] sources[i].key@
            != #[trigger] sources[j].key@
}

/// Every source that was dispatched has reported, and no other has.
pub open spec fn all_reported(
    old: Seq<(String, CacheEntry)>,
    incremental: bool,
    sources: Seq<SourceProbe>,
    outcomes: Seq<Option<CompileOutcome>>,
) -> bool {
    &&& outcomes.len() == sources.len()
    &&& forall|i: int|
        0 <= i < sources.len() ==> (#[trigger] outcomes[i]).is_some() == !is_hit(old, incremental, sources[i])
}

/// Combines the outcomes of a build once every dispatched compilation has
/// reported (`None` for a source that reused its cache entry). Fails
/// exactly when some compilation failed, naming every failed source; else
/// yields every source's object and the new cache.
pub fn finish_compilation(
    old: &BuildCache,
    incremental: bool,
    sources: &Vec<SourceProbe>,
    outcomes: &Vec<Option<CompileOutcome>>,
) -> (r: Result<CompileSuccess, CompileFailure>)
    requires
        old.wf(),
        distinct_keys(sources@),
        all_reported(old.entries@, incremental, sources@, outcomes@),
    ensures
        r is Err <==> exists|i: int| 0 <= i < outcomes@.len() && #[trigger] failed(outcomes@[i]),
        r matches Err(f) ==> views(f.failed_sources@) == failed_keys(sources@, outcomes@),
        r matches Ok(s) ==> {
            &&& views(s.objects@) == sources@.map_values(|p: SourceProbe| p.object@)
            &&& s.cache.wf()
            &&& cache_view(s.cache.entries@) == next_cache(old.entries@, incremental, sources@, outcomes@)
            &&& s.persist == incremental
        },
{
    let mut failed_sources: Vec<String> = Vec::new();
    let mut messages: Vec<String> = Vec::new();
    let mut i: usize = 0;
    assert(views(failed_sources@) =~= failed_keys(sources@.subrange(0, 0), outcomes@.subrange(0, 0)));
    while i < sources.len()
        invariant
            i <= sources@.len(),
            outcomes@.len() == sources@.len(),
            views(failed_sources@) == failed_keys(sources@.subrange(0, i as int), outcomes@.subrange(0, i as int)),
            failed_sources@.len() == 0 <==> forall|k: int| 0 <= k < i ==> !#[trigger] failed(outcomes@[k]),
        decreases sources@.len() - i,
    {
        proof {
            let s2 = sources@.subrange(0, i + 1);
            let o2 = outcomes@.subrange(0, i + 1);
            assert(s2.drop_last() =~= sources@.subrange(0, i as int));
            assert(o2.subrange(0, i as int) =~= outcomes@.subrange(0, i as int));
        }
        match &outcomes[i] {
            Some(CompileOutcome::Failed { message }) => {
                let ghost prev = failed_sources@;
                failed_sources.push(String::from_str(sources[i].key.as_str()));
                messages.push(String::from_str(message.as_str()));
                assert(views(failed_sources@) =~= views(prev).push(sources@[i as int].key@));
                assert(failed(outcomes@[i as int]));
            },
            _ => {
                assert(!failed(outcomes@[i as int]));
            },
        }
        i = i + 1;
        proof {
            if failed_sources@.len() == 0 {
                assert forall|k: int| 0 <= k < i implies !#[trigger] failed(outcomes@[k]) by {
                    if k == i - 1 {
                    }
                }
            } else {
                if forall|k: int| 0 <= k < i ==> !#[trigger] failed(outcomes@[k]) {
                    assert(!failed(outcomes@[i - 1]));
                }
            }
        }
    }
    assert(sources@.subrange(0, i as int) =~= sources@);
    assert(outcomes@.subrange(0, i as int) =~= outcomes@);
    if failed_sources.len() > 0 {
        return Err(CompileFailure { failed_sources, messages });
    }
    let mut objects: Vec<String> = Vec::new();
    let mut entries: Vec<(String, CacheEntry)> = Vec::new();
    let ghost want = next_cache(old.entries@, incremental, sources@, outcomes@);
    let mut j: usize = 0;
    while j < sources.len()
        invariant
            old.wf(),
            j <= sources@.len(),
            all_reported(old.entries@, incremental, sources@, outcomes@),
            want == next_cache(old.entries@, incremental, sources@, outcomes@),
            views(objects@) == sources@.map_values(|p: SourceProbe| p.object@).subrange(0, j as int),
            cache_view(entries@) == want.subrange(0, j as int),
        decreases sources@.len() - j,
    {
        let p = &sources[j];
        let e = match &outcomes[j] {
            None => {
                let found = old.get(p.key.as_str());
                proof {
                    if incremental {
                        assert(is_hit(old.entries@, incremental, sources@[j as int]));
                    }
                }
                match found {
                    Some(e) => e.copy(),
                    None => {
                        assert(false);
                        CacheEntry { source_hash: 0, flags_hash: 0, deps_hash: 0, obj_path: String::new() }
                    },
                }
            },
            Some(o) => {
                let h = match o {
                    CompileOutcome::Compiled { header_hash } => *header_hash,
                    CompileOutcome::Failed { .. } => 0,
                };
                CacheEntry {
                    source_hash: p.source_hash,
                    flags_hash: p.flags_hash,
                    deps_hash: h,
                    obj_path: String::from_str(p.object.as_str()),
                }
            },
        };
        let ghost pe = entries@;
        let ghost po = objects@;
        entries.push((String::from_str(p.key.as_str()), e));
        objects.push(String::from_str(p.object.as_str()));
        assert(cache_view(entries@) =~= cache_view(pe).push(want[j as int]));
        assert(want.subrange(0, j + 1) =~= want.subrange(0, j as int).push(want[j as int]));
        assert(views(objects@) =~= views(po).push(p.object@));
        assert(sources@.map_values(|p: SourceProbe| p.object@).subrange(0, j + 1) =~= sources@.map_values(
            |p: SourceProbe| p.object@,
        ).subrange(0, j as int).push(p.object@));
        j = j + 1;
    }
    assert(want.subrange(0, j as int) =~= want);
    assert(sources@.map_values(|p: SourceProbe| p.object@).subrange(0, j as int) =~= sources@.map_values(
        |p: SourceProbe| p.object@,
    ));
    let cache = BuildCache { entries };
    proof {
        assert forall|a: int, b: int|
            0 <= a < cache.entries@.len() && 0 <= b < cache.entries@.len() && a != b implies #[trigger] cache.entries@[a].0@
            != #[trigger] cache.entries@[b].0@ by {
            assert(cache_view(cache.entries@)[a].0 == sources@[a].key@);
            assert(cache_view(cache.entries@)[b].0 == sources@[b].key@);
        }
    }
    Ok(CompileSuccess { objects, cache, persist: incremental })
}

/// Idempotence: after a successful incremental build, a second build in
/// which no source, flag or header has changed (each source's fresh hashes
/// are those just recorded, and its object still exists) compiles
/// nothing: every source is a cache hit.
pub proof fn lemma_rebuild_compiles_nothing(
    old: Seq<(String, CacheEntry)>,
    sources: Seq<SourceProbe>,
    outcomes: Seq<Option<CompileOutcome>>,
    new_entries: Seq<(String, CacheEntry)>,
    again: Seq<SourceProbe>,
)
    requires
        keys_unique(old),
        distinct_keys(sources),
        all_reported(old, true, sources, outcomes),
        forall|i: int| 0 <= i < outcomes.len() ==> !#[trigger] failed(outcomes[i]),
        keys_unique(new_entries),
        cache_view(new_entries) == next_cache(old, true, sources, outcomes),
        again.len() == sources.len(),
        forall|i: int|
            0 <= i < again.len() ==> {
                &&& (#[trigger] again[i]).key@ == sources[i].key@
                &&& again[i].source_hash == sources[i].source_hash
                &&& again[i].flags_hash == sources[i].flags_hash
                &&& again[i].recorded_object_exists
                &&& again[i].header_hash == Some(next_cache(old, true, sources, outcomes)[i].1.2)
            },
    ensures
        forall|i: int| 0 <= i < again.len() ==> is_hit(new_entries, true, #[trigger] again[i]),
{
    let want = next_cache(old, true, sources, outcomes);
    assert(cache_view(new_entries).len() == new_entries.len());
    assert forall|i: int| 0 <= i < again.len() implies is_hit(new_entries, true, #[trigger] again[i]) by {
        assert(cache_view(new_entries)[i] == want[i]);
        assert(new_entries[i].0@ == again[i].key@);
        lemma_entry_at(new_entries, again[i].key@, i);
        let e = new_entries[i].1;
        if is_hit(old, true, sources[i]) {
            let oe = entry_for(old, sources[i].key@).unwrap();
            assert(entry_valid(oe, sources[i]));
            assert(entry_view(e) == entry_view(oe));
        }
        assert(entry_valid(e, again[i]));
    }
}

/// Invalidation: a source whose content, compiler invocation or headers
/// hash differently from what its entry records is compiled again.
pub proof fn lemma_change_forces_recompile(
    entries: Seq<(String, CacheEntry)>,
    incremental: bool,
    p: SourceProbe,
    e: CacheEntry,
)
    requires
        entry_for(entries, p.key@) == Some(e),
        p.source_hash != e.source_hash || p.flags_hash != e.flags_hash || p.header_hash != Some(
            e.deps_hash,
        ),
    ensures
        !is_hit(entries, incremental, p),
{
}

/// Invalidation is local: whether a source is compiled depends on its own
/// entry only, so a change to any other source's entry leaves the decision
/// for it as it was.
pub proof fn lemma_unrelated_change_keeps_decision(
    before: Seq<(String, CacheEntry)>,
    after: Seq<(String, CacheEntry)>,
    incremental: bool,
    p: SourceProbe,
)
    requires
        entry_for(before, p.key@) == entry_for(after, p.key@),
    ensures
        is_hit(before, incremental, p) == is_hit(after, incremental, p),
{
}

/// Corruption tolerance: an entry whose recorded object is gone is a miss,
/// whatever its hashes say.
pub proof fn lemma_missing_object_is_miss(entries: Seq<(String, CacheEntry)>, incremental: bool, p: SourceProbe)
    requires
        !p.recorded_object_exists,
    ensures
        !is_hit(entries, incremental, p),
{
}

/// Aggregation: where exactly one of the reported compilations failed,
/// the failure names exactly that source.
pub proof fn lemma_single_failure_named(sources: Seq<SourceProbe>, outcomes: Seq<Option<CompileOutcome>>, j: int)
    requires
        outcomes.len() == sources.len(),
        0 <= j < sources.len(),
        failed(outcomes[j]),
        forall|i: int| 0 <= i < outcomes.len() && i != j ==> !#[trigger] failed(outcomes[i]),
    ensures
        failed_keys(sources, outcomes) == seq![sources[j].key@],
    decreases sources.len(),
{
    let n = sources.len() - 1;
    let s2 = sources.drop_last();
    let o2 = outcomes.subrange(0, n);
    if j == n {
        lemma_no_failure_named(s2, o2);
    } else {
        assert forall|i: int| 0 <= i < o2.len() && i != j implies !#[trigger] failed(o2[i]) by {
            assert(o2[i] == outcomes[i]);
        }
        lemma_single_failure_named(s2, o2, j);
        assert(!failed(outcomes[n]));
    }
}

/// With no failed compilation, no source is named.
pub proof fn lemma_no_failure_named(sources: Seq<SourceProbe>, outcomes: Seq<Option<CompileOutcome>>)
    requires
        outcomes.len() == sources.len(),
        forall|i: int| 0 <= i < outcomes.len() ==> !#[trigger] failed(outcomes[i]),
    ensures
        failed_keys(sources, outcomes) == Seq::<Seq<char>>::empty(),
    decreases sources.len(),
{
    if sources.len() > 0 {
        let n = sources.len() - 1;
        let o2 = outcomes.subrange(0, n);
        assert forall|i: int| 0 <= i < o2.len() implies !#[trigger] failed(o2[i]) by {
            assert(o2[i] == outcomes[i]);
        }
        lemma_no_failure_named(sources.drop_last(), o2);
        assert(!failed(outcomes[n]));
    }
}

} // verus!
