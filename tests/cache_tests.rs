use crow::cache::{
    compute_deps_hash, compute_flags_hash, content_hash, distinct_strings, listed_paths, parse_dep_file,
};
use crow::incremental::{
    finish_compilation, is_cache_hit, plan_compilation, BuildCache, CacheEntry, CompileOutcome,
    SourceProbe, worker_count,
};

fn strs(v: &[&str]) -> Vec<String> {
    v.iter().map(|x| x.to_string()).collect()
}

fn entry(sh: u64, fh: u64, dh: u64, obj: &str) -> CacheEntry {
    CacheEntry { source_hash: sh, flags_hash: fh, deps_hash: dh, obj_path: obj.to_string() }
}

fn probe(key: &str, obj: &str, sh: u64, fh: u64, exists: bool, hh: Option<u64>) -> SourceProbe {
    SourceProbe {
        key: key.to_string(),
        object: obj.to_string(),
        source_hash: sh,
        flags_hash: fh,
        recorded_object_exists: exists,
        header_hash: hh,
    }
}

#[test]
fn dep_file_parsing_handles_continuations_and_duplicates() {
    let text = "obj/main.o: src/main.cpp \\\n  include/a.h include/b.h \\\r\n include/a.h\n";
    assert_eq!(parse_dep_file(text), strs(&["include/a.h", "include/b.h", "src/main.cpp"]));
    assert_eq!(listed_paths(text), strs(&["src/main.cpp", "include/a.h", "include/b.h"]));
    assert!(parse_dep_file("no colon here").is_empty());
    assert_eq!(parse_dep_file("x.o:a\\b c"), strs(&["a\\b", "c"]));
    assert_eq!(distinct_strings(&strs(&["b", "a", "b"])), strs(&["b", "a"]));
}

#[test]
fn content_hash_is_xxh3() {
    assert_eq!(content_hash(b""), xxhash_rust::xxh3::xxh3_64(b""));
    assert_eq!(content_hash(b"int main(){}"), xxhash_rust::xxh3::xxh3_64(b"int main(){}"));
    assert_ne!(content_hash(b"a"), content_hash(b"b"));
}

#[test]
fn flags_hash_depends_on_compiler_and_each_argument() {
    let a = compute_flags_hash("g++", &strs(&["-c", "x.cpp"]));
    assert_eq!(a, xxhash_rust::xxh3::xxh3_64(b"g++-c\0x.cpp\0"));
    assert_ne!(a, compute_flags_hash("clang++", &strs(&["-c", "x.cpp"])));
    assert_ne!(a, compute_flags_hash("g++", &strs(&["-c", "x.cpp", "-O2"])));
    assert_ne!(a, compute_flags_hash("g++", &strs(&["-cx.cpp"])));
}

#[test]
fn deps_hash_ignores_listing_order() {
    let a = compute_deps_hash(&vec![Some(5), None, Some(3)]);
    let b = compute_deps_hash(&vec![Some(3), Some(5), None]);
    assert_eq!(a, b);
    let mut bytes = Vec::new();
    for h in [0u64, 3, 5] {
        bytes.extend_from_slice(&h.to_le_bytes());
    }
    assert_eq!(a, xxhash_rust::xxh3::xxh3_64(&bytes));
    assert_ne!(a, compute_deps_hash(&vec![Some(5), Some(4), None]));
}

#[test]
fn cache_insert_replaces_and_keeps_others() {
    let mut c = BuildCache::new();
    c.insert("a.cpp".to_string(), entry(1, 2, 3, "a.o"));
    c.insert("b.cpp".to_string(), entry(4, 5, 6, "b.o"));
    c.insert("a.cpp".to_string(), entry(7, 8, 9, "a2.o"));
    assert_eq!(c.len(), 2);
    assert_eq!(c.get("a.cpp").unwrap().obj_path, "a2.o");
    assert_eq!(c.get("b.cpp").unwrap().source_hash, 4);
    assert!(c.get("c.cpp").is_none());
    assert_eq!(BuildCache::default().len(), 0);
}

#[test]
fn cache_hit_requires_all_hashes_and_object() {
    let e = entry(1, 2, 3, "a.o");
    assert!(is_cache_hit(&e, &probe("a", "a.o", 1, 2, true, Some(3))));
    assert!(!is_cache_hit(&e, &probe("a", "a.o", 9, 2, true, Some(3))));
    assert!(!is_cache_hit(&e, &probe("a", "a.o", 1, 9, true, Some(3))));
    assert!(!is_cache_hit(&e, &probe("a", "a.o", 1, 2, true, Some(9))));
    assert!(!is_cache_hit(&e, &probe("a", "a.o", 1, 2, true, None)));
    // the object file was deleted: a miss even though every hash matches
    assert!(!is_cache_hit(&e, &probe("a", "a.o", 1, 2, false, Some(3))));
}

#[test]
fn plan_recompiles_only_changed_sources() {
    let mut old = BuildCache::new();
    old.insert("a.cpp".to_string(), entry(1, 2, 3, "a.o"));
    old.insert("b.cpp".to_string(), entry(4, 5, 6, "b.o"));
    let sources = vec![
        probe("a.cpp", "a.o", 1, 2, true, Some(3)),
        probe("b.cpp", "b.o", 40, 5, true, Some(6)),
        probe("c.cpp", "c.o", 7, 8, false, None),
    ];
    assert_eq!(plan_compilation(&old, true, &sources), vec![false, true, true]);
    assert_eq!(plan_compilation(&old, false, &sources), vec![true, true, true]);
}

#[test]
fn idempotent_second_build_compiles_nothing() {
    let old = BuildCache::new();
    let sources = vec![probe("a.cpp", "a.o", 1, 2, false, None), probe("b.cpp", "b.o", 3, 4, false, None)];
    let plan = plan_compilation(&old, true, &sources);
    assert_eq!(plan, vec![true, true]);
    let outcomes = vec![
        Some(CompileOutcome::Compiled { header_hash: 11 }),
        Some(CompileOutcome::Compiled { header_hash: 12 }),
    ];
    let done = finish_compilation(&old, true, &sources, &outcomes).unwrap();
    assert_eq!(done.objects, strs(&["a.o", "b.o"]));
    assert!(done.persist);
    let again = vec![probe("a.cpp", "a.o", 1, 2, true, Some(11)), probe("b.cpp", "b.o", 3, 4, true, Some(12))];
    assert_eq!(plan_compilation(&done.cache, true, &again), vec![false, false]);
}

#[test]
fn header_change_forces_recompile_of_includer_only() {
    let mut old = BuildCache::new();
    old.insert("a.cpp".to_string(), entry(1, 2, 3, "a.o"));
    old.insert("b.cpp".to_string(), entry(4, 5, 6, "b.o"));
    let sources = vec![probe("a.cpp", "a.o", 1, 2, true, Some(30)), probe("b.cpp", "b.o", 4, 5, true, Some(6))];
    assert_eq!(plan_compilation(&old, true, &sources), vec![true, false]);
}

#[test]
fn one_failure_among_several_is_reported_after_all() {
    let old = BuildCache::new();
    let sources = vec![
        probe("a.cpp", "a.o", 1, 1, false, None),
        probe("b.cpp", "b.o", 2, 2, false, None),
        probe("c.cpp", "c.o", 3, 3, false, None),
    ];
    let outcomes = vec![
        Some(CompileOutcome::Compiled { header_hash: 0 }),
        Some(CompileOutcome::Failed { message: "b.cpp:1: error".to_string() }),
        Some(CompileOutcome::Compiled { header_hash: 0 }),
    ];
    let err = finish_compilation(&old, true, &sources, &outcomes).unwrap_err();
    assert_eq!(err.failed_sources, strs(&["b.cpp"]));
    assert_eq!(err.messages, strs(&["b.cpp:1: error"]));
    assert_eq!(err.describe(), "Compilation failed: b.cpp");
}

#[test]
fn reused_entries_are_carried_over() {
    let mut old = BuildCache::new();
    old.insert("a.cpp".to_string(), entry(1, 2, 3, "old/a.o"));
    let sources = vec![probe("a.cpp", "a.o", 1, 2, true, Some(3)), probe("b.cpp", "b.o", 5, 6, false, None)];
    let outcomes = vec![None, Some(CompileOutcome::Compiled { header_hash: 7 })];
    let done = finish_compilation(&old, true, &sources, &outcomes).unwrap();
    assert_eq!(done.cache.len(), 2);
    assert_eq!(done.cache.get("a.cpp").unwrap().obj_path, "old/a.o");
    let b = done.cache.get("b.cpp").unwrap();
    assert_eq!((b.source_hash, b.flags_hash, b.deps_hash), (5, 6, 7));
    assert_eq!(b.obj_path, "b.o");
}

#[test]
fn worker_count_defaults_and_minimum() {
    assert_eq!(worker_count(Some(4), Some(16)), 4);
    assert_eq!(worker_count(None, Some(16)), 16);
    assert_eq!(worker_count(None, None), 1);
    assert_eq!(worker_count(Some(0), Some(16)), 1);
}
