//! Fingerprints for incremental compilation: content, flag and header
//! hashes, the per-source cache entry, and the rule that decides whether
//! a recorded entry still stands.

use crate::text::{chars_of, string_of, holds, vec_holds, views};
use vstd::prelude::*;
use vstd::string::*;
use vstd::utf8::encode_utf8;

verus! {

/// What `xxhash_rust::xxh3::xxh3_64` returns for a byte sequence.
pub uninterp spec fn xxh3_of(b: Seq<u8>) -> u64;

/// Relies on `xxhash_rust::xxh3::xxh3_64`: the 64-bit XXH3 hash of the
/// input, a function of the bytes alone.
#[verifier::external_body]
fn xxh3(b: &[u8]) -> (r: u64)
    ensures
        r == xxh3_of(b@),
{
    xxhash_rust::xxh3::xxh3_64(b)
}

/// Relies on `slice::sort_unstable`: the same items in ascending order.
#[verifier::external_body]
fn sort_hashes(v: &mut Vec<u64>)
    ensures
        final(v)@.to_multiset() == old(v)@.to_multiset(),
        forall|i: int, j: int| 0 <= i <= j < final(v)@.len() ==> final(v)@[i] <= final(v)@[j],
{
    v.sort_unstable()
}

/// What `char::is_whitespace` says of a character.
pub uninterp spec fn whitespace_char(c: char) -> bool;

/// Relies on `char::is_whitespace`: the Unicode `White_Space` property.
#[verifier::external_body]
fn is_whitespace(c: char) -> (r: bool)
    ensures
        r == whitespace_char(c),
{
    c.is_whitespace()
}

/// The hash of a file's contents.
pub fn content_hash(bytes: &[u8]) -> (r: u64)
    ensures
        r == xxh3_of(bytes@),
{
    xxh3(bytes)
}

/// The bytes hashed for a compiler invocation: the compiler path, then
/// each argument followed by a zero byte.
pub open spec fn flags_bytes(compiler: Seq<char>, args: Seq<Seq<char>>) -> Seq<u8>
    decreases args.len(),
{
    if args.len() == 0 {
        encode_utf8(compiler)
    } else {
        flags_bytes(compiler, args.drop_last()) + encode_utf8(args.last()) + seq![0u8]
    }
}

/// Appends the bytes of `b`.
fn push_bytes(out: &mut Vec<u8>, b: &[u8])
    ensures
        final(out)@ == old(out)@ + b@,
{
    let mut i: usize = 0;
    while i < b.len()
        invariant
            i <= b@.len(),
            out@ == old(out)@ + b@.subrange(0, i as int),
        decreases b@.len() - i,
    {
        out.push(b[i]);
        i = i + 1;
        assert(out@ =~= old(out)@ + b@.subrange(0, i as int));
    }
    assert(b@.subrange(0, i as int) =~= b@);
}

/// The hash of a compiler invocation: changes with the compiler path and
/// with every argument and its position.
pub fn compute_flags_hash(compiler: &str, args: &Vec<String>) -> (r: u64)
    ensures
        r == xxh3_of(flags_bytes(compiler@, views(args@))),
{
    let mut bytes: Vec<u8> = Vec::new();
    push_bytes(&mut bytes, compiler.as_bytes());
    assert(bytes@ =~= flags_bytes(compiler@, views(args@).subrange(0, 0)));
    let mut i: usize = 0;
    while i < args.len()
        invariant
            i <= args@.len(),
            bytes@ == flags_bytes(compiler@, views(args@).subrange(0, i as int)),
        decreases args@.len() - i,
    {
        push_bytes(&mut bytes, args[i].as_str().as_bytes());
        bytes.push(0u8);
        proof {
            let pre = views(args@).subrange(0, i + 1);
            assert(pre.drop_last() =~= views(args@).subrange(0, i as int));
            assert(pre.last() == args@[i as int]@);
        }
        i = i + 1;
    }
    assert(views(args@).subrange(0, i as int) =~= views(args@));
    xxh3(bytes.as_slice())
}

/// The eight bytes of `h`, least significant first.
pub open spec fn le_bytes(h: u64) -> Seq<u8> {
    seq![
        (h & 0xff) as u8,
        ((h >> 8u64) & 0xff) as u8,
        ((h >> 16u64) & 0xff) as u8,
        ((h >> 24u64) & 0xff) as u8,
        ((h >> 32u64) & 0xff) as u8,
        ((h >> 40u64) & 0xff) as u8,
        ((h >> 48u64) & 0xff) as u8,
        ((h >> 56u64) & 0xff) as u8,
    ]
}

/// The bytes of a sequence of hashes, one after the other.
pub open spec fn hashes_bytes(hs: Seq<u64>) -> Seq<u8>
    decreases hs.len(),
{
    if hs.len() == 0 {
        Seq::empty()
    } else {
        hashes_bytes(hs.drop_last()) + le_bytes(hs.last())
    }
}

/// The hash of a header's contents, with a missing header counted as 0.
pub open spec fn header_value(h: Option<u64>) -> u64 {
    match h {
        Some(v) => v,
        None => 0,
    }
}

/// `s` is `hs` in ascending order.
pub open spec fn sorted_version(hs: Seq<u64>, s: Seq<u64>) -> bool {
    &&& s.to_multiset() == hs.to_multiset()
    &&& forall|i: int, j: int| 0 <= i <= j < s.len() ==> s[i] <= s[j]
}

/// Combines the content hashes of the headers a source includes (`None`
/// for a header that no longer exists, counted as 0): the hashes are
/// sorted, so the order in which headers were listed does not matter, and
/// the sorted sequence is hashed.
pub fn compute_deps_hash(header_hashes: &Vec<Option<u64>>) -> (r: u64)
    ensures
        exists|s: Seq<u64>|
            sorted_version(header_hashes@.map_values(|h: Option<u64>| header_value(h)), s) && r
                == xxh3_of(hashes_bytes(s)),
{
    let mut hs: Vec<u64> = Vec::new();
    let mut i: usize = 0;
    while i < header_hashes.len()
        invariant
            i <= header_hashes@.len(),
            hs@ == header_hashes@.map_values(|h: Option<u64>| header_value(h)).subrange(0, i as int),
        decreases header_hashes@.len() - i,
    {
        let v = match header_hashes[i] {
            Some(v) => v,
            None => 0,
        };
        hs.push(v);
        i = i + 1;
        assert(hs@ =~= header_hashes@.map_values(|h: Option<u64>| header_value(h)).subrange(0, i as int));
    }
    assert(hs@ =~= header_hashes@.map_values(|h: Option<u64>| header_value(h)));
    sort_hashes(&mut hs);
    let mut bytes: Vec<u8> = Vec::new();
    let mut k: usize = 0;
    while k < hs.len()
        invariant
            k <= hs@.len(),
            bytes@ == hashes_bytes(hs@.subrange(0, k as int)),
        decreases hs@.len() - k,
    {
        let h = hs[k];
        let ghost before = bytes@;
        bytes.push((h & 0xff) as u8);
        bytes.push(((h >> 8u64) & 0xff) as u8);
        bytes.push(((h >> 16u64) & 0xff) as u8);
        bytes.push(((h >> 24u64) & 0xff) as u8);
        bytes.push(((h >> 32u64) & 0xff) as u8);
        bytes.push(((h >> 40u64) & 0xff) as u8);
        bytes.push(((h >> 48u64) & 0xff) as u8);
        bytes.push(((h >> 56u64) & 0xff) as u8);
        proof {
            let pre = hs@.subrange(0, k + 1);
            assert(pre.drop_last() =~= hs@.subrange(0, k as int));
            assert(pre.last() == h);
            assert(bytes@ =~= before + le_bytes(h));
        }
        k = k + 1;
    }
    assert(hs@.subrange(0, k as int) =~= hs@);
    xxh3(bytes.as_slice())
}

/// The character at `i` is a line-continuation backslash: one directly
/// followed by a line break (`\n` or `\r\n`).
pub open spec fn continuation_at(s: Seq<char>, i: int) -> bool {
    &&& 0 <= i < s.len()
    &&& s[i] == '\\'
    &&& ((i + 1 < s.len() && s[i + 1] == '\n') || (i + 2 < s.len() && s[i + 1] == '\r' && s[i + 2]
        == '\n'))
}

/// The character at `i` separates paths in a dependency listing.
pub open spec fn separator_at(s: Seq<char>, i: int) -> bool {
    whitespace_char(s[i]) || continuation_at(s, i)
}

/// The words and the unfinished word after scanning the first `n`
/// characters of `s`.
pub open spec fn scan_words(s: Seq<char>, from: int, n: int) -> (Seq<Seq<char>>, Seq<char>)
    decreases n - from,
{
    if n <= from {
        (Seq::empty(), Seq::empty())
    } else {
        let (words, cur) = scan_words(s, from, n - 1);
        if separator_at(s, n - 1) {
            if cur.len() > 0 {
                (words.push(cur), Seq::empty())
            } else {
                (words, Seq::empty())
            }
        } else {
            (words, cur.push(s[n - 1]))
        }
    }
}

/// The words of `s` from position `from` on.
pub open spec fn words_from(s: Seq<char>, from: int) -> Seq<Seq<char>> {
    let (words, cur) = scan_words(s, from, s.len() as int);
    if cur.len() > 0 {
        words.push(cur)
    } else {
        words
    }
}

/// The first occurrence of `:`, if any.
pub open spec fn is_first_colon(s: Seq<char>, i: int) -> bool {
    &&& 0 <= i < s.len()
    &&& s[i] == ':'
    &&& forall|j: int| 0 <= j < i ==> s[j] != ':'
}

/// The distinct items of `v`, each where it first occurs.
pub open spec fn distinct_in_order(v: Seq<Seq<char>>) -> Seq<Seq<char>>
    decreases v.len(),
{
    if v.len() == 0 {
        Seq::empty()
    } else {
        let d = distinct_in_order(v.drop_last());
        if holds(d, v.last()) {
            d
        } else {
            d.push(v.last())
        }
    }
}

/// The paths a makefile-style dependency listing names: the words after
/// the first colon, with line continuations read as spaces, each path
/// once.
pub open spec fn dep_listing(s: Seq<char>) -> Seq<Seq<char>> {
    if exists|i: int| is_first_colon(s, i) {
        distinct_in_order(words_from(s, (choose|i: int| is_first_colon(s, i)) + 1))
    } else {
        Seq::empty()
    }
}

/// `a` comes no later than `b` in lexicographic order of code points.
pub open spec fn lex_le(a: Seq<char>, b: Seq<char>) -> bool
    decreases a.len(),
{
    if a.len() == 0 {
        true
    } else if b.len() == 0 {
        false
    } else if a[0] != b[0] {
        (a[0] as u32) < (b[0] as u32)
    } else {
        lex_le(a.subrange(1, a.len() as int), b.subrange(1, b.len() as int))
    }
}

/// The strings are in ascending lexicographic order.
pub open spec fn lex_sorted(v: Seq<Seq<char>>) -> bool {
    forall|i: int, j: int| 0 <= i <= j < v.len() ==> lex_le(#[trigger] v[i], #[trigger] v[j])
}

/// Relies on `slice::sort` over `String`, whose order is the
/// lexicographic order of the UTF-8 bytes, which is that of code points:
/// the same strings, in ascending order.
#[verifier::external_body]
fn sort_strings(v: &mut Vec<String>)
    ensures
        views(final(v)@).to_multiset() == views(old(v)@).to_multiset(),
        lex_sorted(views(final(v)@)),
{
    v.sort()
}

/// Reads the paths out of a compiler-generated dependency listing: each
/// path once, in ascending order.
pub fn parse_dep_file(content: &str) -> (r: Vec<String>)
    ensures
        views(r@).to_multiset() == dep_listing(content@).to_multiset(),
        lex_sorted(views(r@)),
{
    let mut r = listed_paths(content);
    sort_strings(&mut r);
    r
}

/// The paths of a dependency listing, each once, where each first occurs.
pub fn listed_paths(content: &str) -> (r: Vec<String>)
    ensures
        views(r@) == dep_listing(content@),
{
    let cs = chars_of(content);
    let n = cs.len();
    let mut c: usize = 0;
    while c < n && cs[c] != ':'
        invariant
            n == cs@.len(),
            cs@ == content@,
            c <= n,
            forall|j: int| 0 <= j < c ==> cs@[j] != ':',
        decreases n - c,
    {
        c = c + 1;
    }
    if c == n {
        let r: Vec<String> = Vec::new();
        assert(views(r@) =~= Seq::<Seq<char>>::empty());
        return r;
    }
    assert(is_first_colon(content@, c as int));
    proof {
        let k = choose|i: int| is_first_colon(content@, i);
        if k < c {
            assert(content@[k] == ':');
        }
        if c < k {
            assert(content@[c as int] == ':');
        }
    }
    let from = c + 1;
    let mut words: Vec<String> = Vec::new();
    let mut cur: Vec<char> = Vec::new();
    let mut i: usize = from;
    assert(views(words@) =~= scan_words(content@, from as int, from as int).0);
    assert(cur@ =~= scan_words(content@, from as int, from as int).1);
    while i < n
        invariant
            n == cs@.len(),
            cs@ == content@,
            from <= i <= n,
            views(words@) == scan_words(content@, from as int, i as int).0,
            cur@ == scan_words(content@, from as int, i as int).1,
        decreases n - i,
    {
        let ch = cs[i];
        let cont = ch == '\\' && ((i + 1 < n && cs[i + 1] == '\n') || (n - i > 2 && cs[i + 1] == '\r'
            && cs[i + 2] == '\n'));
        let sep = is_whitespace(ch) || cont;
        assert(sep == separator_at(content@, i as int));
        if sep {
            if cur.len() > 0 {
                let w = string_of(cur.as_slice());
                let ghost prev = words@;
                words.push(w);
                assert(views(words@) =~= views(prev).push(w@));
            }
            cur = Vec::new();
            assert(cur@ =~= Seq::<char>::empty());
        } else {
            cur.push(ch);
        }
        i = i + 1;
    }
    if cur.len() > 0 {
        let w = string_of(cur.as_slice());
        let ghost prev = words@;
        words.push(w);
        assert(views(words@) =~= views(prev).push(w@));
    }
    assert(views(words@) == words_from(content@, from as int));
    distinct_strings(&words)
}

/// The distinct strings of `v`, each where it first occurs.
pub fn distinct_strings(v: &Vec<String>) -> (r: Vec<String>)
    ensures
        views(r@) == distinct_in_order(views(v@)),
{
    let mut r: Vec<String> = Vec::new();
    let mut i: usize = 0;
    assert(views(v@).subrange(0, 0) =~= Seq::<Seq<char>>::empty());
    assert(views(r@) =~= Seq::<Seq<char>>::empty());
    while i < v.len()
        invariant
            i <= v@.len(),
            views(r@) == distinct_in_order(views(v@).subrange(0, i as int)),
        decreases v@.len() - i,
    {
        let ghost pre = views(v@).subrange(0, i + 1);
        assert(pre.drop_last() =~= views(v@).subrange(0, i as int));
        assert(pre.last() == v@[i as int]@);
        if !vec_holds(&r, v[i].as_str()) {
            let ghost prev = r@;
            r.push(String::from_str(v[i].as_str()));
            assert(views(r@) =~= views(prev).push(v@[i as int]@));
        }
        i = i + 1;
    }
    assert(views(v@).subrange(0, i as int) =~= views(v@));
    r
}

} // verus!
