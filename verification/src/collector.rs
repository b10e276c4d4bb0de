//! Selection of script modules for the bundle, and module-name derivation.
//!
//! Paths are carried as byte strings, relative to the bundle root, with `/`
//! as the separator.  Filtering applies, in order: entries whose first path
//! segment is the reserved tests marker directory are skipped; entries without the script extension are
//! skipped; under the single-target-runtime configuration the designated test
//! harness entry is skipped; under the minimal (no-SDK) configuration the
//! reserved vendor-namespace subtrees are skipped.
//!
//! A kept entry's module name is its path with the script extension dropped,
//! except for pre-bundled chunk entries, which keep their full path as the
//! name because the runtime addresses them by that literal string.  Module
//! names must be unique across the tree; a collision is a build error.

use vstd::prelude::*;

verus! {

/// How a build run failed.  Every build error is fatal for that invocation:
/// the pipeline either completes fully or publishes nothing.
#[derive(Debug)]
pub enum BuildError {
    /// A source file could not be read; carries the offending path.
    Unreadable { path: Vec<u8> },
    /// The engine rejected a module's source; carries the module name and
    /// the engine's message.
    Compile { name: Vec<u8>, message: Vec<u8> },
    /// Two files derive the same module name; carries that name.
    DuplicateName { name: Vec<u8> },
    /// The external compression or training tool exited non-zero.
    CompressionTool,
}

/// Build-time feature toggles that narrow the module selection.
#[derive(Clone, Copy, Debug, PartialEq, Eq, Structural)]
pub struct BuildConfig {
    /// Minimal build: exclude the vendor-namespace subtrees.
    pub no_sdk: bool,
    /// Single-target-runtime build: exclude the test harness entry.
    pub single_target: bool,
}

/// One selected module: its relative path and the name derived from it.
#[derive(Debug)]
pub struct ModuleEntry {
    pub path: Vec<u8>,
    pub name: Vec<u8>,
}

/// `s` starts with `p`.
pub open spec fn spec_starts_with(s: Seq<u8>, p: Seq<u8>) -> bool {
    s.len() >= p.len() && s.subrange(0, p.len() as int) == p
}

/// `s` ends with `p`.
pub open spec fn spec_ends_with(s: Seq<u8>, p: Seq<u8>) -> bool {
    s.len() >= p.len() && s.subrange(s.len() - p.len(), s.len() as int) == p
}

/// The reserved tests marker directory as a leading path segment.
pub open spec fn spec_tests_prefix() -> Seq<u8> {
    seq![('_' as u8), ('_' as u8), ('t' as u8), ('e' as u8), ('s' as u8), ('t' as u8), ('s' as u8), ('_' as u8), ('_' as u8), ('/' as u8)]
}

/// The script extension, dot included.
pub open spec fn spec_script_ext() -> Seq<u8> {
    seq![('.' as u8), ('j' as u8), ('s' as u8)]
}

/// Prefix of pre-bundled chunk entries, which keep their literal path as
/// their module name.
pub open spec fn spec_chunk_prefix() -> Seq<u8> {
    seq![('l' as u8), ('l' as u8), ('r' as u8), ('t' as u8), ('-' as u8), ('c' as u8), ('h' as u8), ('u' as u8), ('n' as u8), ('k' as u8), ('-' as u8)]
}

/// First vendor-namespace prefix excluded under the minimal build.
pub open spec fn spec_aws_sdk_prefix() -> Seq<u8> {
    seq![('@' as u8), ('a' as u8), ('w' as u8), ('s' as u8), ('-' as u8), ('s' as u8), ('d' as u8), ('k' as u8)]
}

/// Second vendor-namespace prefix excluded under the minimal build.
pub open spec fn spec_smithy_prefix() -> Seq<u8> {
    seq![('@' as u8), ('s' as u8), ('m' as u8), ('i' as u8), ('t' as u8), ('h' as u8), ('y' as u8)]
}

/// Vendor chunk prefix excluded under the minimal build.
pub open spec fn spec_chunk_sdk_prefix() -> Seq<u8> {
    seq![('l' as u8), ('l' as u8), ('r' as u8), ('t' as u8), ('-' as u8), ('c' as u8), ('h' as u8), ('u' as u8), ('n' as u8), ('k' as u8), ('-' as u8), ('s' as u8), ('d' as u8), ('k' as u8)]
}

/// The test harness entry excluded under the single-target-runtime build.
pub open spec fn spec_harness_path() -> Seq<u8> {
    seq![('@' as u8), ('l' as u8), ('l' as u8), ('r' as u8), ('t' as u8), ('/' as u8), ('t' as u8), ('e' as u8), ('s' as u8), ('t' as u8), ('.' as u8), ('j' as u8), ('s' as u8)]
}

/// Index where the file name of `s` starts: just after the last separator,
/// or 0 if there is none.
pub open spec fn spec_filename_start(s: Seq<u8>) -> int
    decreases s.len(),
{
    if s.len() == 0 {
        0
    } else if s.last() == ('/' as u8) {
        s.len() as int
    } else {
        spec_filename_start(s.drop_last())
    }
}

/// Where the file name starts: in bounds, right after a separator, with no
/// separator anywhere in the file name itself.
pub proof fn lemma_filename_start(s: Seq<u8>)
    ensures
        0 <= spec_filename_start(s) <= s.len(),
        spec_filename_start(s) > 0 ==> s[spec_filename_start(s) - 1] == ('/' as u8),
        forall|j: int| spec_filename_start(s) <= j < s.len() ==> s[j] != ('/' as u8),
    decreases s.len(),
{
    if s.len() == 0 {
    } else if s.last() == ('/' as u8) {
    } else {
        lemma_filename_start(s.drop_last());
        assert forall|j: int| spec_filename_start(s) <= j < s.len() implies s[j] != ('/' as u8) by {
            if j < s.len() - 1 {
                assert(s.drop_last()[j] == s[j]);
            }
        }
    }
}

/// The path names a file with the script extension: it ends in the extension
/// and the file name has a non-empty stem before it.
pub open spec fn spec_has_script_ext(s: Seq<u8>) -> bool {
    &&& spec_ends_with(s, spec_script_ext())
    &&& spec_filename_start(s) < s.len() - 3
}

/// The module name derived from a kept path: chunk entries keep the full
/// path, all others drop the extension.
pub open spec fn spec_module_name(s: Seq<u8>) -> Seq<u8>
    recommends
        spec_has_script_ext(s),
{
    if spec_starts_with(s, spec_chunk_prefix()) {
        s
    } else {
        s.subrange(0, s.len() - 3)
    }
}

/// Whether the collector keeps `path` under `cfg`.
pub open spec fn spec_keep(path: Seq<u8>, cfg: BuildConfig) -> bool {
    &&& !spec_starts_with(path, spec_tests_prefix())
    &&& spec_has_script_ext(path)
    &&& (cfg.single_target ==> path != spec_harness_path())
    &&& (cfg.no_sdk ==> {
        &&& !spec_starts_with(path, spec_aws_sdk_prefix())
        &&& !spec_starts_with(path, spec_smithy_prefix())
        &&& !spec_starts_with(path, spec_chunk_sdk_prefix())
    })
}

/// The entries collected from `paths` in traversal order: every kept path,
/// paired with its derived name.
pub open spec fn spec_collect(paths: Seq<Seq<u8>>, cfg: BuildConfig) -> Seq<(Seq<u8>, Seq<u8>)>
    decreases paths.len(),
{
    if paths.len() == 0 {
        Seq::empty()
    } else {
        spec_collect(paths.drop_last(), cfg) + (if spec_keep(paths.last(), cfg) {
            seq![(paths.last(), spec_module_name(paths.last()))]
        } else {
            Seq::empty()
        })
    }
}

/// The (path, name) pairs of an entry list.
pub open spec fn spec_entry_pairs(entries: Seq<ModuleEntry>) -> Seq<(Seq<u8>, Seq<u8>)> {
    entries.map_values(|e: ModuleEntry| (e.path@, e.name@))
}

pub fn starts_with_bytes(s: &[u8], p: &[u8]) -> (b: bool)
    ensures
        b == spec_starts_with(s@, p@),
{
    if s.len() < p.len() {
        return false;
    }
    let mut i: usize = 0;
    while i < p.len()
        invariant
            s@.len() >= p@.len(),
            i <= p@.len(),
            forall|j: int| 0 <= j < i ==> s@[j] == p@[j],
        decreases p@.len() - i,
    {
        if *vstd::slice::slice_index_get(s, i) != *vstd::slice::slice_index_get(p, i) {
            assert(!spec_starts_with(s@, p@)) by {
                if s@.subrange(0, p@.len() as int) == p@ {
                    assert(s@.subrange(0, p@.len() as int)[i as int] == p@[i as int]);
                }
            }
            return false;
        }
        i = i + 1;
    }
    assert(s@.subrange(0, p@.len() as int) =~= p@);
    true
}

pub fn bytes_equal(a: &[u8], b: &[u8]) -> (r: bool)
    ensures
        r == (a@ == b@),
{
    if a.len() != b.len() {
        return false;
    }
    let mut i: usize = 0;
    while i < a.len()
        invariant
            a@.len() == b@.len(),
            i <= a@.len(),
            forall|j: int| 0 <= j < i ==> a@[j] == b@[j],
        decreases a@.len() - i,
    {
        if *vstd::slice::slice_index_get(a, i) != *vstd::slice::slice_index_get(b, i) {
            assert(a@ != b@) by {
                if a@ == b@ {
                    assert(a@[i as int] == b@[i as int]);
                }
            }
            return false;
        }
        i = i + 1;
    }
    assert(a@ =~= b@);
    true
}

fn tests_prefix() -> (v: Vec<u8>)
    ensures
        v@ == spec_tests_prefix(),
{
    let mut v: Vec<u8> = Vec::new();
    v.push(('_' as u8));
    v.push(('_' as u8));
    v.push(('t' as u8));
    v.push(('e' as u8));
    v.push(('s' as u8));
    v.push(('t' as u8));
    v.push(('s' as u8));
    v.push(('_' as u8));
    v.push(('_' as u8));
    v.push(('/' as u8));
    assert(v@ =~= spec_tests_prefix());
    v
}

fn chunk_prefix() -> (v: Vec<u8>)
    ensures
        v@ == spec_chunk_prefix(),
{
    let mut v: Vec<u8> = Vec::new();
    v.push(('l' as u8));
    v.push(('l' as u8));
    v.push(('r' as u8));
    v.push(('t' as u8));
    v.push(('-' as u8));
    v.push(('c' as u8));
    v.push(('h' as u8));
    v.push(('u' as u8));
    v.push(('n' as u8));
    v.push(('k' as u8));
    v.push(('-' as u8));
    assert(v@ =~= spec_chunk_prefix());
    v
}

fn aws_sdk_prefix() -> (v: Vec<u8>)
    ensures
        v@ == spec_aws_sdk_prefix(),
{
    let mut v: Vec<u8> = Vec::new();
    v.push(('@' as u8));
    v.push(('a' as u8));
    v.push(('w' as u8));
    v.push(('s' as u8));
    v.push(('-' as u8));
    v.push(('s' as u8));
    v.push(('d' as u8));
    v.push(('k' as u8));
    assert(v@ =~= spec_aws_sdk_prefix());
    v
}

fn smithy_prefix() -> (v: Vec<u8>)
    ensures
        v@ == spec_smithy_prefix(),
{
    let mut v: Vec<u8> = Vec::new();
    v.push(('@' as u8));
    v.push(('s' as u8));
    v.push(('m' as u8));
    v.push(('i' as u8));
    v.push(('t' as u8));
    v.push(('h' as u8));
    v.push(('y' as u8));
    assert(v@ =~= spec_smithy_prefix());
    v
}

fn chunk_sdk_prefix() -> (v: Vec<u8>)
    ensures
        v@ == spec_chunk_sdk_prefix(),
{
    let mut v = chunk_prefix();
    v.push(('s' as u8));
    v.push(('d' as u8));
    v.push(('k' as u8));
    assert(v@ =~= spec_chunk_sdk_prefix());
    v
}

fn harness_path() -> (v: Vec<u8>)
    ensures
        v@ == spec_harness_path(),
{
    let mut v: Vec<u8> = Vec::new();
    v.push(('@' as u8));
    v.push(('l' as u8));
    v.push(('l' as u8));
    v.push(('r' as u8));
    v.push(('t' as u8));
    v.push(('/' as u8));
    v.push(('t' as u8));
    v.push(('e' as u8));
    v.push(('s' as u8));
    v.push(('t' as u8));
    v.push(('.' as u8));
    v.push(('j' as u8));
    v.push(('s' as u8));
    assert(v@ =~= spec_harness_path());
    v
}

/// Where the file name of `path` starts.
fn filename_start(path: &[u8]) -> (i: usize)
    ensures
        i == spec_filename_start(path@),
{
    let mut i: usize = path.len();
    while i > 0 && *vstd::slice::slice_index_get(path, i - 1) != ('/' as u8)
        invariant
            i <= path@.len(),
            forall|j: int| i <= j < path@.len() ==> path@[j] != ('/' as u8),
        decreases i,
    {
        i = i - 1;
    }
    proof {
        lemma_filename_start(path@);
        let fs = spec_filename_start(path@);
        if i < fs {
            assert(path@[fs - 1] == ('/' as u8));
        }
        if fs < i {
            assert(path@[i - 1] != ('/' as u8));
        }
    }
    i
}

/// Whether `path` names a file with the script extension.
fn has_script_ext(path: &[u8]) -> (b: bool)
    ensures
        b == spec_has_script_ext(path@),
{
    let n = path.len();
    if n < 4 {
        proof {
            lemma_filename_start(path@);
        }
        return false;
    }
    let ends = *vstd::slice::slice_index_get(path, n - 3) == ('.' as u8)
        && *vstd::slice::slice_index_get(path, n - 2) == ('j' as u8)
        && *vstd::slice::slice_index_get(path, n - 1) == ('s' as u8);
    proof {
        if ends {
            assert(path@.subrange(n - 3, n as int) =~= spec_script_ext());
        } else {
            if path@.subrange(n - 3, n as int) == spec_script_ext() {
                assert(path@.subrange(n - 3, n as int)[0] == ('.' as u8));
                assert(path@.subrange(n - 3, n as int)[1] == ('j' as u8));
                assert(path@.subrange(n - 3, n as int)[2] == ('s' as u8));
            }
        }
    }
    if !ends {
        return false;
    }
    let fs = filename_start(path);
    fs < n - 3
}

/// Derive the module name of a kept path: the full path for chunk entries,
/// the path without its extension otherwise.
pub fn derive_module_name(path: &Vec<u8>) -> (name: Vec<u8>)
    requires
        spec_has_script_ext(path@),
    ensures
        name@ == spec_module_name(path@),
{
    let chunk = chunk_prefix();
    if starts_with_bytes(path.as_slice(), chunk.as_slice()) {
        path.clone()
    } else {
        let mut name: Vec<u8> = Vec::new();
        let end = path.len() - 3;
        let mut i: usize = 0;
        while i < end
            invariant
                end == path@.len() - 3,
                i <= end,
                name@ == path@.subrange(0, i as int),
            decreases end - i,
        {
            name.push(path[i]);
            assert(path@.subrange(0, i + 1)
                =~= path@.subrange(0, i as int).push(path@[i as int]));
            i = i + 1;
        }
        name
    }
}

/// Whether the collector keeps `path` under `cfg`, applying the filter rules
/// in order.
pub fn keep_path(path: &Vec<u8>, cfg: BuildConfig) -> (b: bool)
    ensures
        b == spec_keep(path@, cfg),
{
    let tests = tests_prefix();
    if starts_with_bytes(path.as_slice(), tests.as_slice()) {
        return false;
    }
    if !has_script_ext(path.as_slice()) {
        return false;
    }
    if cfg.single_target {
        let harness = harness_path();
        if bytes_equal(path.as_slice(), harness.as_slice()) {
            return false;
        }
    }
    if cfg.no_sdk {
        let aws = aws_sdk_prefix();
        let smithy = smithy_prefix();
        let chunk_sdk = chunk_sdk_prefix();
        if starts_with_bytes(path.as_slice(), aws.as_slice())
            || starts_with_bytes(path.as_slice(), smithy.as_slice())
            || starts_with_bytes(path.as_slice(), chunk_sdk.as_slice()) {
            return false;
        }
    }
    true
}

/// Walk `paths` in traversal order and collect every kept path with its
/// derived module name.
pub fn collect_modules(paths: &Vec<Vec<u8>>, cfg: BuildConfig) -> (entries: Vec<ModuleEntry>)
    ensures
        spec_entry_pairs(entries@) == spec_collect(paths@.map_values(|p: Vec<u8>| p@), cfg),
{
    let ghost specs = paths@.map_values(|p: Vec<u8>| p@);
    let mut entries: Vec<ModuleEntry> = Vec::new();
    let mut i: usize = 0;
    while i < paths.len()
        invariant
            i <= paths@.len(),
            specs == paths@.map_values(|p: Vec<u8>| p@),
            spec_entry_pairs(entries@) == spec_collect(specs.subrange(0, i as int), cfg),
        decreases paths@.len() - i,
    {
        proof {
            let pre = specs.subrange(0, i as int);
            let post = specs.subrange(0, i + 1);
            assert(post.drop_last() =~= pre);
            assert(post.last() == paths@[i as int]@);
        }
        let path = &paths[i];
        if keep_path(path, cfg) {
            let name = derive_module_name(path);
            let entry = ModuleEntry { path: path.clone(), name };
            entries.push(entry);
            assert(spec_entry_pairs(entries@)
                =~= spec_collect(specs.subrange(0, i + 1), cfg));
        } else {
            assert(spec_collect(specs.subrange(0, i + 1), cfg)
                =~= spec_collect(specs.subrange(0, i as int), cfg));
        }
        i = i + 1;
    }
    assert(specs.subrange(0, specs.len() as int) =~= specs);
    entries
}

/// A chunk entry's name (its full path) never equals a non-chunk entry's
/// name (a path with the extension dropped): the former starts with the
/// chunk prefix and the latter cannot.
proof fn lemma_chunk_nonchunk_names_differ(a: Seq<u8>, b: Seq<u8>)
    requires
        spec_starts_with(a, spec_chunk_prefix()),
        !spec_starts_with(b, spec_chunk_prefix()),
        spec_has_script_ext(b),
    ensures
        a != b.subrange(0, b.len() - 3),
{
    let chunk = spec_chunk_prefix();
    let nb = b.subrange(0, b.len() - 3);
    if a == nb {
        assert(b.len() >= nb.len() + 3);
        assert(nb.len() == a.len() >= chunk.len());
        assert(b.subrange(0, chunk.len() as int) =~= chunk) by {
            assert forall|i: int| 0 <= i < chunk.len() implies
                b.subrange(0, chunk.len() as int)[i] == chunk[i] by {
                assert(nb[i] == b[i]);
                assert(a.subrange(0, chunk.len() as int)[i] == a[i]);
            }
        }
    }
}

/// Within one traversal, distinct kept paths always derive distinct module
/// names: a name collision can only come from the same path entering the
/// build twice (or from entries assembled outside one traversal), never from
/// the derivation itself.
pub proof fn lemma_module_name_injective(p1: Seq<u8>, p2: Seq<u8>, cfg: BuildConfig)
    requires
        spec_keep(p1, cfg),
        spec_keep(p2, cfg),
        p1 != p2,
    ensures
        spec_module_name(p1) != spec_module_name(p2),
{
    let chunk = spec_chunk_prefix();
    let ext = spec_script_ext();
    let c1 = spec_starts_with(p1, chunk);
    let c2 = spec_starts_with(p2, chunk);
    if c1 && c2 {
    } else if !c1 && !c2 {
        if spec_module_name(p1) == spec_module_name(p2) {
            let l = p1.len() as int;
            assert(spec_module_name(p1) == p1.subrange(0, p1.len() - 3));
            assert(spec_module_name(p2) == p2.subrange(0, p2.len() - 3));
            assert(p1.subrange(0, p1.len() - 3).len() == p2.subrange(0, p2.len() - 3).len());
            assert(p1.len() == p2.len());
            assert(p1 =~= p2) by {
                assert forall|i: int| 0 <= i < p1.len() implies p1[i] == p2[i] by {
                    if i < l - 3 {
                        assert(p1.subrange(0, l - 3)[i] == p1[i]);
                        assert(p2.subrange(0, l - 3)[i] == p2[i]);
                    } else {
                        assert(p1.subrange(l - 3, l)[i - (l - 3)] == p1[i]);
                        assert(p2.subrange(l - 3, l)[i - (l - 3)] == p2[i]);
                        assert(p1.subrange(l - 3, l) == ext && p2.subrange(l - 3, l) == ext);
                    }
                }
            }
        }
    } else if c1 {
        lemma_chunk_nonchunk_names_differ(p1, p2);
    } else {
        lemma_chunk_nonchunk_names_differ(p2, p1);
    }
}

/// Module names are pairwise distinct.
pub open spec fn spec_names_unique(entries: Seq<ModuleEntry>) -> bool {
    forall|i: int, j: int| 0 <= i < j < entries.len()
        ==> (#[trigger] entries[i].name@) != (#[trigger] entries[j].name@)
}

/// Enforce the collector's uniqueness invariant: succeed exactly when no two
/// entries share a derived name, and name the colliding module otherwise.
pub fn check_unique_names(entries: &Vec<ModuleEntry>) -> (r: Result<(), BuildError>)
    ensures
        r is Ok <==> spec_names_unique(entries@),
        r matches Err(e) ==> e matches BuildError::DuplicateName { name }
            && exists|i: int, j: int| 0 <= i < j < entries@.len()
                && entries@[i].name@ == name@ && entries@[j].name@ == name@,
{
    let n = entries.len();
    let mut i: usize = 0;
    while i < n
        invariant
            n == entries@.len(),
            i <= n,
            forall|a: int, b: int| 0 <= a < i && a < b < n
                ==> (#[trigger] entries@[a].name@) != (#[trigger] entries@[b].name@),
        decreases n - i,
    {
        let mut j: usize = i + 1;
        while j < n
            invariant
                n == entries@.len(),
                i < n,
                i < j <= n,
                forall|b: int| i < b < j ==> (#[trigger] entries@[b].name@) != entries@[i as int].name@,
            decreases n - j,
        {
            if bytes_equal(entries[i].name.as_slice(), entries[j].name.as_slice()) {
                return Err(BuildError::DuplicateName { name: entries[i].name.clone() });
            }
            j = j + 1;
        }
        i = i + 1;
    }
    Ok(())
}

} // verus!
