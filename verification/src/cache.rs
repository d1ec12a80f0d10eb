//! The cache of built libraries: one directory for each version of the
//! package, found again by its name, and the order in which the directories
//! are searched and cleared.

use crate::number::{
    decimal, hex16_upper, hex_upper, lemma_parse_u64_of_decimal, parse_u64, parse_u64_spec,
};
use crate::text::{
    chars_of, extend_chars, matches_at, push_str, same_chars, starts_with, string_of,
};
use crate::version::{version_dir_name, version_dir_name_spec};
use vstd::prelude::*;

verus! {

/// The directory, below a version's directory, of a build whose tests were
/// not run.
pub const NO_TESTS_DIR: &'static str = "c-no-tests";

/// What the directory name `name` says of its version, in a cache of the
/// versions that begin with `prefix`: `Some(None)` for the directory named
/// `prefix` itself, `Some(Some(p))` for `prefix`, a dot and the number `p`,
/// and `None` for any other name.
pub open spec fn dir_patch_spec(name: Seq<char>, prefix: Seq<char>) -> Option<Option<u64>> {
    if name == prefix {
        Some(None)
    } else if matches_at(name, prefix, 0) && name.len() > prefix.len() && name[prefix.len() as int]
        == '.' {
        match parse_u64_spec(name.skip(prefix.len() as int + 1)) {
            Some(p) => Some(Some(p as u64)),
            None => None,
        }
    } else {
        None
    }
}

/// What a directory name says of its version.
pub fn dir_patch(name: &str, prefix: &str) -> (r: Option<Option<u64>>)
    ensures
        r == dir_patch_spec(name@, prefix@),
{
    let n: Vec<char> = chars_of(name);
    let p: Vec<char> = chars_of(prefix);
    if same_chars(n.as_slice(), p.as_slice()) {
        return Some(None);
    }
    if !starts_with(n.as_slice(), p.as_slice()) {
        return None;
    }
    if !(n.len() > p.len() && n[p.len()] == '.') {
        return None;
    }
    let tail: &[char] = &n.as_slice()[p.len() + 1..n.len()];
    assert(tail@ =~= name@.skip(prefix@.len() as int + 1));
    match parse_u64(tail) {
        Some(v) => Some(Some(v)),
        None => None,
    }
}

/// A directory saved under a version is found again as that version.
pub proof fn lemma_dir_patch_of_version_dir(prefix: Seq<char>, patch: Option<u64>)
    ensures
        dir_patch_spec(version_dir_name_spec(prefix, patch), prefix) == Some(patch),
{
    match patch {
        None => {},
        Some(p) => {
            let name = version_dir_name_spec(prefix, patch);
            assert(name.subrange(0, prefix.len() as int) =~= prefix);
            assert(name.skip(prefix.len() as int + 1) =~= decimal(p as nat));
            lemma_parse_u64_of_decimal(p as nat);
        },
    }
}

/// The name of the cache directory for one C compiler.
pub open spec fn cc_dir_name_spec(cc: Seq<char>) -> Seq<char> {
    "CC-"@ + cc
}

/// The name of the cache directory for one C compiler.
pub fn cc_dir_name(cc: &str) -> (r: String)
    ensures
        r@ == cc_dir_name_spec(cc@),
{
    let mut name: Vec<char> = chars_of("CC-");
    push_str(&mut name, cc);
    string_of(name.as_slice())
}

/// The name of the cache directory for the compiler flags whose hash is
/// `hash`.
pub open spec fn cflags_dir_name_spec(hash: u64) -> Seq<char> {
    "CFLAGS-"@ + hex_upper(hash as nat, 16)
}

/// The name of the cache directory for the compiler flags whose hash is
/// `hash`.
pub fn cflags_dir_name(hash: u64) -> (r: String)
    ensures
        r@ == cflags_dir_name_spec(hash),
{
    let mut name: Vec<char> = chars_of("CFLAGS-");
    let digits: Vec<char> = hex16_upper(hash);
    extend_chars(&mut name, digits.as_slice());
    string_of(name.as_slice())
}

/// A version's directory in the cache.
#[derive(Debug, Clone)]
pub struct CacheDir {
    /// The directory's name.
    pub name: String,
    /// The patch number that the name ends in.
    pub patch: Option<u64>,
}

/// A version's directory in the cache, its name as a sequence of characters.
pub struct CacheEntry {
    /// The directory's name.
    pub name: Seq<char>,
    /// The patch number that the name ends in.
    pub patch: Option<u64>,
}

impl View for CacheDir {
    type V = CacheEntry;

    open spec fn view(&self) -> CacheEntry {
        CacheEntry { name: self.name@, patch: self.patch }
    }
}

/// The entries that a vector of directories holds.
pub open spec fn entries(dirs: Seq<CacheDir>) -> Seq<CacheEntry> {
    dirs.map_values(|d: CacheDir| d@)
}

/// The texts that a vector of strings holds.
pub open spec fn strings(names: Seq<String>) -> Seq<Seq<char>> {
    names.map_values(|s: String| s@)
}

/// The order of patch numbers: a directory without one comes before all
/// others.
pub open spec fn patch_le(a: Option<u64>, b: Option<u64>) -> bool {
    match (a, b) {
        (None, _) => true,
        (Some(_), None) => false,
        (Some(x), Some(y)) => x <= y,
    }
}

/// No entry stands before one with a smaller patch number.
pub open spec fn sorted_by_patch(s: Seq<CacheEntry>) -> bool {
    forall|i: int, j: int| 0 <= i <= j < s.len() ==> patch_le(s[i].patch, s[j].patch)
}

/// The entries of `s` with the patch number `k`, in their order.
pub open spec fn with_patch(s: Seq<CacheEntry>, k: Option<u64>) -> Seq<CacheEntry>
    decreases s.len(),
{
    if s.len() == 0 {
        Seq::empty()
    } else if s.last().patch == k {
        with_patch(s.drop_last(), k).push(s.last())
    } else {
        with_patch(s.drop_last(), k)
    }
}

/// `sorted` holds the entries of `s` in the order of their patch numbers,
/// those with the same patch number in the order they have in `s`.
pub open spec fn is_stable_sort_of(sorted: Seq<CacheEntry>, s: Seq<CacheEntry>) -> bool {
    &&& sorted.len() == s.len()
    &&& sorted_by_patch(sorted)
    &&& forall|k: Option<u64>| #[trigger] with_patch(sorted, k) == with_patch(s, k)
}

/// The entries for those of `names` that are names of version directories,
/// in the order of `names`.
pub open spec fn recognized(names: Seq<Seq<char>>, prefix: Seq<char>) -> Seq<CacheEntry>
    decreases names.len(),
{
    if names.len() == 0 {
        Seq::empty()
    } else {
        match dir_patch_spec(names.last(), prefix) {
            Some(patch) => recognized(names.drop_last(), prefix).push(
                CacheEntry { name: names.last(), patch },
            ),
            None => recognized(names.drop_last(), prefix),
        }
    }
}

/// An entry put in behind the last entry of its patch number joins the
/// entries of that patch number at their end, and no others.
proof fn lemma_with_patch_insert(s: Seq<CacheEntry>, pos: int, e: CacheEntry, k: Option<u64>)
    requires
        0 <= pos <= s.len(),
        forall|j: int| pos <= j < s.len() ==> s[j].patch != e.patch,
    ensures
        with_patch(s.insert(pos, e), k) == if e.patch == k {
            with_patch(s, k).push(e)
        } else {
            with_patch(s, k)
        },
    decreases s.len() - pos,
{
    let t = s.insert(pos, e);
    if pos == s.len() {
        assert(t.drop_last() =~= s);
    } else {
        lemma_with_patch_insert(s.drop_last(), pos, e, k);
        assert(t.drop_last() =~= s.drop_last().insert(pos, e));
        assert(t.last() == s.last());
    }
}

/// What `with_patch` keeps has the patch number asked for, and nothing is
/// kept where no entry has it.
proof fn lemma_with_patch_members(s: Seq<CacheEntry>, k: Option<u64>)
    ensures
        with_patch(s, k).len() <= s.len(),
        forall|i: int| 0 <= i < with_patch(s, k).len() ==> (#[trigger] with_patch(s, k)[i]).patch == k,
        (exists|i: int| 0 <= i < s.len() && s[i].patch == k) <==> with_patch(s, k).len() > 0,
    decreases s.len(),
{
    if s.len() > 0 {
        lemma_with_patch_members(s.drop_last(), k);
        if s.last().patch != k {
            if exists|i: int| 0 <= i < s.len() && s[i].patch == k {
                let i = choose|i: int| 0 <= i < s.len() && s[i].patch == k;
                assert(s.drop_last()[i].patch == k);
            }
        } else {
            assert(s[s.len() - 1].patch == k);
        }
        if with_patch(s.drop_last(), k).len() > 0 {
            let i = choose|i: int| 0 <= i < s.drop_last().len() && s.drop_last()[i].patch == k;
            assert(s[i].patch == k);
        }
    }
}

/// A stable sort has one result: two sorted sequences that both keep the
/// entries of each patch number as `s` has them are the same sequence.
pub proof fn lemma_stable_sort_unique(a: Seq<CacheEntry>, b: Seq<CacheEntry>, s: Seq<CacheEntry>)
    requires
        is_stable_sort_of(a, s),
        is_stable_sort_of(b, s),
    ensures
        a == b,
    decreases a.len(),
{
    if a.len() == 0 {
        assert(a =~= b);
    } else {
        let x = a.last();
        let y = b.last();
        let k = x.patch;
        let m = y.patch;
        assert(with_patch(a, k) == with_patch(b, k));
        assert(with_patch(a, m) == with_patch(b, m));
        lemma_with_patch_members(a, k);
        lemma_with_patch_members(b, k);
        lemma_with_patch_members(a, m);
        lemma_with_patch_members(b, m);
        assert(a[a.len() - 1].patch == k);
        assert(b[b.len() - 1].patch == m);
        let i = choose|i: int| 0 <= i < b.len() && b[i].patch == k;
        assert(patch_le(b[i].patch, b[b.len() - 1].patch));
        let j = choose|j: int| 0 <= j < a.len() && a[j].patch == m;
        assert(patch_le(a[j].patch, a[a.len() - 1].patch));
        assert(k == m);
        assert(with_patch(a, k).last() == x);
        assert(with_patch(b, k).last() == y);
        assert(x == y);
        let a0 = a.drop_last();
        let b0 = b.drop_last();
        assert forall|q: Option<u64>| #[trigger] with_patch(a0, q) == with_patch(b0, q) by {
            assert(with_patch(a, q) == with_patch(b, q));
            if q == k {
                assert(with_patch(a0, q) =~= with_patch(a, q).drop_last());
                assert(with_patch(b0, q) =~= with_patch(b, q).drop_last());
            }
        }
        assert(sorted_by_patch(a0)) by {
            assert forall|i: int, j: int| 0 <= i <= j < a0.len() implies patch_le(
                a0[i].patch,
                a0[j].patch,
            ) by {
                assert(patch_le(a[i].patch, a[j].patch));
            }
        }
        assert(sorted_by_patch(b0)) by {
            assert forall|i: int, j: int| 0 <= i <= j < b0.len() implies patch_le(
                b0[i].patch,
                b0[j].patch,
            ) by {
                assert(patch_le(b[i].patch, b[j].patch));
            }
        }
        lemma_stable_sort_unique(a0, b0, b0);
        assert(a =~= a0.push(x));
        assert(b =~= b0.push(y));
    }
}

/// Whether `a` comes no later than `b` in the order of patch numbers.
fn patch_no_later(a: Option<u64>, b: Option<u64>) -> (r: bool)
    ensures
        r == patch_le(a, b),
{
    match a {
        None => true,
        Some(x) => match b {
            None => false,
            Some(y) => x <= y,
        },
    }
}

/// The version directories among `names`, ordered by patch number, those of
/// one patch number in the order of `names`.
pub fn cache_directories(names: &Vec<String>, prefix: &str) -> (r: Vec<CacheDir>)
    ensures
        is_stable_sort_of(entries(r@), recognized(strings(names@), prefix@)),
{
    let mut out: Vec<CacheDir> = Vec::new();
    let mut i: usize = 0;
    assert(strings(names@).take(0) =~= Seq::<Seq<char>>::empty());
    while i < names.len()
        invariant
            i <= names.len(),
            is_stable_sort_of(entries(out@), recognized(strings(names@).take(i as int), prefix@)),
        decreases names.len() - i,
    {
        let ghost seen = strings(names@).take(i as int);
        let ghost next = strings(names@).take(i + 1);
        assert(next.drop_last() =~= seen);
        assert(next.last() == names@[i as int]@);
        match dir_patch(names[i].as_str(), prefix) {
            None => {},
            Some(patch) => {
                let mut pos: usize = 0;
                while pos < out.len() && patch_no_later(out[pos].patch, patch)
                    invariant
                        pos <= out.len(),
                        forall|j: int| 0 <= j < pos ==> patch_le(entries(out@)[j].patch, patch),
                    decreases out.len() - pos,
                {
                    pos += 1;
                }
                let ghost before = entries(out@);
                let dir = CacheDir { name: names[i].clone(), patch };
                let ghost e = dir@;
                out.insert(pos, dir);
                proof {
                    let after = entries(out@);
                    assert(after =~= before.insert(pos as int, e));
                    assert forall|j: int| pos <= j < before.len() implies !patch_le(
                        before[j].patch,
                        patch,
                    ) by {
                        assert(patch_le(before[pos as int].patch, before[j].patch));
                    }
                    assert forall|a: int, b: int| 0 <= a <= b < after.len() implies patch_le(
                        after[a].patch,
                        after[b].patch,
                    ) by {
                        if a < pos && b > pos {
                            assert(patch_le(before[a].patch, before[b - 1].patch));
                        } else if a < pos && b < pos {
                            assert(patch_le(before[a].patch, before[b].patch));
                        } else if a > pos {
                            assert(patch_le(before[a - 1].patch, before[b - 1].patch));
                        }
                    }
                    assert(e == CacheEntry { name: next.last(), patch });
                    assert(recognized(next, prefix@) == recognized(seen, prefix@).push(e));
                    assert forall|j: int| pos <= j < before.len() implies before[j].patch
                        != e.patch by {
                        assert(!patch_le(before[j].patch, patch));
                        assert(patch_le(patch, patch));
                    }
                    assert forall|k: Option<u64>| #[trigger]
                        with_patch(after, k) == with_patch(recognized(next, prefix@), k) by {
                        lemma_with_patch_insert(before, pos as int, e, k);
                        assert(with_patch(before, k) == with_patch(recognized(seen, prefix@), k));
                        assert(recognized(next, prefix@).drop_last() =~= recognized(seen, prefix@));
                    }
                }
            },
        }
        i += 1;
    }
    assert(strings(names@).take(names.len() as int) =~= strings(names@));
    out
}

/// Which version directories a search takes in.
#[derive(Clone, Copy, Debug, PartialEq, Eq, Structural)]
pub enum Keep {
    /// Those of the wanted patch number or a higher one.
    NoOlder,
    /// Those of the wanted patch number or a lower one.
    NoNewer,
}

/// Whether a search for the patch number `wanted` takes in a directory of
/// the patch number `patch`. A version without a patch number is matched by
/// the directory without one, and by no other.
pub open spec fn keeps(keep: Keep, wanted: Option<u64>, patch: Option<u64>) -> bool {
    match (wanted, patch) {
        (None, None) => true,
        (Some(w), Some(p)) => match keep {
            Keep::NoOlder => p >= w,
            Keep::NoNewer => p <= w,
        },
        _ => false,
    }
}

/// The test that `keeps` makes, as a function of the entry.
pub open spec fn keeping(keep: Keep, wanted: Option<u64>) -> spec_fn(CacheEntry) -> bool {
    |e: CacheEntry| keeps(keep, wanted, e.patch)
}

/// The entries of `dirs` that a search takes in, the last of `dirs` first.
pub open spec fn newest_first(dirs: Seq<CacheEntry>, keep: Keep, wanted: Option<u64>) -> Seq<
    CacheEntry,
> {
    dirs.reverse().filter(keeping(keep, wanted))
}

/// Whether a search takes in a directory of the patch number `patch`.
fn is_kept(keep: Keep, wanted: Option<u64>, patch: Option<u64>) -> (r: bool)
    ensures
        r == keeps(keep, wanted, patch),
{
    match wanted {
        None => patch.is_none(),
        Some(w) => match patch {
            None => false,
            Some(p) => match keep {
                Keep::NoOlder => p >= w,
                Keep::NoNewer => p <= w,
            },
        },
    }
}

/// The positions in `dirs` of the directories that a search takes in, the
/// last of `dirs` first.
fn kept_positions(dirs: &Vec<CacheDir>, keep: Keep, wanted: Option<u64>) -> (r: Vec<usize>)
    ensures
        forall|k: int| 0 <= k < r@.len() ==> r@[k] < dirs@.len(),
        r@.map_values(|i: usize| dirs@[i as int]@) == newest_first(entries(dirs@), keep, wanted),
{
    let mut out: Vec<usize> = Vec::new();
    let mut i: usize = dirs.len();
    let ghost all = entries(dirs@);
    let ghost test = keeping(keep, wanted);
    assert(all.skip(i as int).reverse() =~= Seq::<CacheEntry>::empty());
    assert(Seq::<CacheEntry>::empty().filter(test) =~= Seq::<CacheEntry>::empty()) by {
        reveal(Seq::filter);
    }
    assert(out@.map_values(|i: usize| dirs@[i as int]@) =~= Seq::<CacheEntry>::empty());
    while i > 0
        invariant
            i <= dirs.len(),
            all == entries(dirs@),
            test == keeping(keep, wanted),
            forall|k: int| 0 <= k < out@.len() ==> out@[k] < dirs@.len(),
            out@.map_values(|i: usize| dirs@[i as int]@) == all.skip(i as int).reverse().filter(
                test,
            ),
        decreases i,
    {
        i -= 1;
        let ghost seen = all.skip(i + 1).reverse();
        assert(all.skip(i as int).reverse() =~= seen.push(all[i as int]));
        let ghost before = out@.map_values(|i: usize| dirs@[i as int]@);
        proof {
            seen.lemma_filter_push(all[i as int], test);
            assert(test(all[i as int]) == keeps(keep, wanted, dirs@[i as int].patch));
        }
        if is_kept(keep, wanted, dirs[i].patch) {
            out.push(i);
            assert(out@.map_values(|i: usize| dirs@[i as int]@) =~= before.push(all[i as int]));
        }
    }
    assert(all.skip(0) =~= all);
    out
}

/// One place where the search for a cached build looks.
#[derive(Debug, Clone)]
pub struct CacheProbe {
    /// The name of the version's directory.
    pub name: String,
    /// Whether to look in the directory of builds whose tests were not run,
    /// below the version's directory.
    pub no_tests: bool,
}

/// One place where the search for a cached build looks, the name as a
/// sequence of characters.
pub struct ProbeView {
    /// The name of the version's directory.
    pub name: Seq<char>,
    /// Whether to look in the directory of builds whose tests were not run.
    pub no_tests: bool,
}

impl View for CacheProbe {
    type V = ProbeView;

    open spec fn view(&self) -> ProbeView {
        ProbeView { name: self.name@, no_tests: self.no_tests }
    }
}

/// The places that a vector of probes holds.
pub open spec fn probes(v: Seq<CacheProbe>) -> Seq<ProbeView> {
    v.map_values(|p: CacheProbe| p@)
}

/// The places to look at for each of `found`, in the version's directory
/// itself or below it.
pub open spec fn probes_of(found: Seq<CacheEntry>, no_tests: bool) -> Seq<ProbeView> {
    found.map_values(|e: CacheEntry| ProbeView { name: e.name, no_tests })
}

/// Where to look for a cached build of the patch number `wanted`, in order:
/// the directories of that patch number or a higher one, the highest first;
/// then, for a build that may go without tests, the directories below them
/// of builds whose tests were not run, in the same order.
pub open spec fn search_order_spec(
    dirs: Seq<CacheEntry>,
    wanted: Option<u64>,
    c_no_tests: bool,
) -> Seq<ProbeView> {
    let found = newest_first(dirs, Keep::NoOlder, wanted);
    if c_no_tests {
        probes_of(found, false) + probes_of(found, true)
    } else {
        probes_of(found, false)
    }
}

/// Appends to `out` a probe for each of the directories at `positions`.
fn push_probes(
    out: &mut Vec<CacheProbe>,
    dirs: &Vec<CacheDir>,
    positions: &Vec<usize>,
    no_tests: bool,
)
    requires
        forall|k: int| 0 <= k < positions@.len() ==> positions@[k] < dirs@.len(),
    ensures
        probes(final(out)@) == probes(old(out)@) + probes_of(
            positions@.map_values(|i: usize| dirs@[i as int]@),
            no_tests,
        ),
{
    let ghost found = positions@.map_values(|i: usize| dirs@[i as int]@);
    let mut k: usize = 0;
    assert(probes(out@) =~= probes(old(out)@) + probes_of(found.take(0), no_tests));
    while k < positions.len()
        invariant
            k <= positions.len(),
            found == positions@.map_values(|i: usize| dirs@[i as int]@),
            forall|j: int| 0 <= j < positions@.len() ==> positions@[j] < dirs@.len(),
            probes(out@) == probes(old(out)@) + probes_of(found.take(k as int), no_tests),
        decreases positions.len() - k,
    {
        let dir: &CacheDir = &dirs[positions[k]];
        let ghost before = probes(out@);
        out.push(CacheProbe { name: dir.name.clone(), no_tests });
        assert(probes(out@) =~= before.push(ProbeView { name: found[k as int].name, no_tests }));
        assert(probes_of(found.take(k + 1), no_tests) =~= probes_of(
            found.take(k as int),
            no_tests,
        ).push(ProbeView { name: found[k as int].name, no_tests }));
        k += 1;
    }
    assert(found.take(positions.len() as int) =~= found);
}

/// Where to look for a cached build of the patch number `wanted`, in order.
pub fn search_order(dirs: &Vec<CacheDir>, wanted: Option<u64>, c_no_tests: bool) -> (r: Vec<
    CacheProbe,
>)
    ensures
        probes(r@) == search_order_spec(entries(dirs@), wanted, c_no_tests),
{
    let positions: Vec<usize> = kept_positions(dirs, Keep::NoOlder, wanted);
    let mut out: Vec<CacheProbe> = Vec::new();
    assert(probes(out@) =~= Seq::<ProbeView>::empty());
    push_probes(&mut out, dirs, &positions, false);
    if c_no_tests {
        push_probes(&mut out, dirs, &positions, true);
    }
    out
}

/// What to clear in one version's directory after a build was saved.
#[derive(Debug, Clone)]
pub struct CleanupStep {
    /// The name of the version's directory.
    pub name: String,
    /// Whether to remove the directory, below it, of builds whose tests were
    /// not run.
    pub remove_no_tests: bool,
    /// Whether to remove the version's directory itself if it holds no
    /// library.
    pub remove_unless_library: bool,
}

/// What to clear in one version's directory, the name as a sequence of
/// characters.
pub struct StepView {
    /// The name of the version's directory.
    pub name: Seq<char>,
    /// Whether to remove the directory of builds whose tests were not run.
    pub remove_no_tests: bool,
    /// Whether to remove the version's directory itself if it holds no
    /// library.
    pub remove_unless_library: bool,
}

impl View for CleanupStep {
    type V = StepView;

    open spec fn view(&self) -> StepView {
        StepView {
            name: self.name@,
            remove_no_tests: self.remove_no_tests,
            remove_unless_library: self.remove_unless_library,
        }
    }
}

/// The steps that a vector holds.
pub open spec fn steps(v: Seq<CleanupStep>) -> Seq<StepView> {
    v.map_values(|s: CleanupStep| s@)
}

/// What to clear in the directory `e` after a build of the patch number
/// `saved` was saved. In the directory just saved to, a build without tests
/// is redundant once a tested one is there. In an older directory the build
/// without tests is always redundant, and after a build without tests so is
/// the directory itself, unless it holds a library.
pub open spec fn cleanup_step(e: CacheEntry, saved: Option<u64>, c_no_tests: bool) -> StepView {
    if e.patch == saved {
        StepView { name: e.name, remove_no_tests: !c_no_tests, remove_unless_library: false }
    } else {
        StepView { name: e.name, remove_no_tests: true, remove_unless_library: c_no_tests }
    }
}

/// What to clear after a build of the patch number `saved` was saved: a step
/// for each directory of that patch number or a lower one, the highest first.
pub open spec fn cleanup_plan_spec(
    dirs: Seq<CacheEntry>,
    saved: Option<u64>,
    c_no_tests: bool,
) -> Seq<StepView> {
    newest_first(dirs, Keep::NoNewer, saved).map_values(
        |e: CacheEntry| cleanup_step(e, saved, c_no_tests),
    )
}

/// Whether two patch numbers are the same.
fn same_patch(a: Option<u64>, b: Option<u64>) -> (r: bool)
    ensures
        r == (a == b),
{
    match a {
        None => b.is_none(),
        Some(x) => match b {
            None => false,
            Some(y) => x == y,
        },
    }
}

/// What to clear after a build of the patch number `saved` was saved.
pub fn cleanup_plan(dirs: &Vec<CacheDir>, saved: Option<u64>, c_no_tests: bool) -> (r: Vec<
    CleanupStep,
>)
    ensures
        steps(r@) == cleanup_plan_spec(entries(dirs@), saved, c_no_tests),
{
    let positions: Vec<usize> = kept_positions(dirs, Keep::NoNewer, saved);
    let ghost found = positions@.map_values(|i: usize| dirs@[i as int]@);
    let ghost plan = |e: CacheEntry| cleanup_step(e, saved, c_no_tests);
    let mut out: Vec<CleanupStep> = Vec::new();
    let mut k: usize = 0;
    assert(steps(out@) =~= found.take(0).map_values(plan));
    while k < positions.len()
        invariant
            k <= positions.len(),
            found == positions@.map_values(|i: usize| dirs@[i as int]@),
            plan == |e: CacheEntry| cleanup_step(e, saved, c_no_tests),
            forall|j: int| 0 <= j < positions@.len() ==> positions@[j] < dirs@.len(),
            steps(out@) == found.take(k as int).map_values(plan),
        decreases positions.len() - k,
    {
        let dir: &CacheDir = &dirs[positions[k]];
        let ghost before = steps(out@);
        let step = if same_patch(dir.patch, saved) {
            CleanupStep {
                name: dir.name.clone(),
                remove_no_tests: !c_no_tests,
                remove_unless_library: false,
            }
        } else {
            CleanupStep {
                name: dir.name.clone(),
                remove_no_tests: true,
                remove_unless_library: c_no_tests,
            }
        };
        assert(step@ == cleanup_step(found[k as int], saved, c_no_tests));
        out.push(step);
        assert(steps(out@) =~= before.push(plan(found[k as int])));
        assert(found.take(k + 1).map_values(plan) =~= found.take(k as int).map_values(plan).push(
            plan(found[k as int]),
        ));
        k += 1;
    }
    assert(found.take(positions.len() as int) =~= found);
    out
}

/// Where the cache is kept.
#[derive(Debug, Clone)]
pub enum CacheSetting {
    /// No cache is kept.
    Disabled,
    /// The cache is kept in the directory named.
    Directory(String),
    /// The cache is kept in a directory of its own below the user's cache
    /// directory.
    SystemDefault,
}

/// Where the cache is kept, the directory as a sequence of characters.
pub enum SettingView {
    /// No cache is kept.
    Disabled,
    /// The cache is kept in the directory named.
    Directory(Seq<char>),
    /// The cache is kept below the user's cache directory.
    SystemDefault,
}

impl View for CacheSetting {
    type V = SettingView;

    open spec fn view(&self) -> SettingView {
        match self {
            CacheSetting::Disabled => SettingView::Disabled,
            CacheSetting::Directory(d) => SettingView::Directory(d@),
            CacheSetting::SystemDefault => SettingView::SystemDefault,
        }
    }
}

/// The name of the cache's own directory below the user's cache directory.
pub const SYSTEM_CACHE_NAME: &'static str = "gmp-ecm-sys";

/// Where the cache is kept, going by the value of the environment variable
/// that chooses it: nowhere for an empty value or `_`, in the directory named
/// for any other value, and below the user's cache directory where the
/// variable is not set.
pub open spec fn cache_setting_spec(value: Option<Seq<char>>) -> SettingView {
    match value {
        None => SettingView::SystemDefault,
        Some(v) => if v.len() == 0 || v == "_"@ {
            SettingView::Disabled
        } else {
            SettingView::Directory(v)
        },
    }
}

/// Where the cache is kept, going by the value of the environment variable
/// that chooses it.
pub fn cache_setting(value: Option<&str>) -> (r: CacheSetting)
    ensures
        r@ == cache_setting_spec(
            match value {
                Some(v) => Some(v@),
                None => None,
            },
        ),
{
    match value {
        None => CacheSetting::SystemDefault,
        Some(v) => {
            let chars: Vec<char> = chars_of(v);
            let underscore: Vec<char> = chars_of("_");
            if chars.len() == 0 || same_chars(chars.as_slice(), underscore.as_slice()) {
                CacheSetting::Disabled
            } else {
                CacheSetting::Directory(string_of(chars.as_slice()))
            }
        },
    }
}

/// The directories that lead from the cache's root to the builds of one
/// package version for one target: the version without its patch number, the
/// target, and then one directory each for a C compiler and for compiler
/// flags that were chosen by hand.
pub open spec fn cache_path_spec(
    version_prefix: Seq<char>,
    host: Seq<char>,
    cross_target: Option<Seq<char>>,
    cc: Option<Seq<char>>,
    cflags_hash: Option<u64>,
) -> Seq<Seq<char>> {
    let target = match cross_target {
        Some(t) => t,
        None => host,
    };
    let base = seq![version_prefix, target];
    let with_cc = match cc {
        Some(c) => base.push(cc_dir_name_spec(c)),
        None => base,
    };
    match cflags_hash {
        Some(h) => with_cc.push(cflags_dir_name_spec(h)),
        None => with_cc,
    }
}

/// What an optional text holds.
pub open spec fn opt_text(s: Option<&str>) -> Option<Seq<char>> {
    match s {
        Some(t) => Some(t@),
        None => None,
    }
}

/// The directories that lead from the cache's root to the builds of one
/// package version for one target.
pub fn cache_path(
    version_prefix: &str,
    host: &str,
    cross_target: Option<&str>,
    cc: Option<&str>,
    cflags_hash: Option<u64>,
) -> (r: Vec<String>)
    ensures
        strings(r@) == cache_path_spec(
            version_prefix@,
            host@,
            opt_text(cross_target),
            opt_text(cc),
            cflags_hash,
        ),
{
    let mut path: Vec<String> = Vec::new();
    path.push(string_of(chars_of(version_prefix).as_slice()));
    let target: &str = match cross_target {
        Some(t) => t,
        None => host,
    };
    path.push(string_of(chars_of(target).as_slice()));
    match cc {
        Some(c) => {
            path.push(cc_dir_name(c));
        },
        None => {},
    }
    match cflags_hash {
        Some(h) => {
            path.push(cflags_dir_name(h));
        },
        None => {},
    }
    assert(strings(path@) =~= cache_path_spec(
        version_prefix@,
        host@,
        opt_text(cross_target),
        opt_text(cc),
        cflags_hash,
    ));
    path
}

/// The directories that lead from the cache's root of one target to where a
/// build is saved: the version's directory, and below it the directory of
/// builds whose tests were not run where this is one.
pub open spec fn save_path_spec(
    version_prefix: Seq<char>,
    patch: Option<u64>,
    c_no_tests: bool,
) -> Seq<Seq<char>> {
    if c_no_tests {
        seq![version_dir_name_spec(version_prefix, patch), NO_TESTS_DIR@]
    } else {
        seq![version_dir_name_spec(version_prefix, patch)]
    }
}

/// The directories that lead to where a build is saved.
pub fn save_path(version_prefix: &str, patch: Option<u64>, c_no_tests: bool) -> (r: Vec<String>)
    ensures
        strings(r@) == save_path_spec(version_prefix@, patch, c_no_tests),
{
    let mut path: Vec<String> = Vec::new();
    path.push(version_dir_name(version_prefix, patch));
    if c_no_tests {
        path.push(string_of(chars_of(NO_TESTS_DIR).as_slice()));
    }
    assert(strings(path@) =~= save_path_spec(version_prefix@, patch, c_no_tests));
    path
}

/// What the build does about the cache once it knows whether the library
/// and its header are in place.
#[derive(Clone, Copy, Debug, PartialEq, Eq, Structural)]
pub enum BuildStep {
    /// The files are in place: save them to the cache unless it holds them.
    KeepAndSave,
    /// The files are missing: look for them in the cache, and build them
    /// if it does not hold them.
    LoadOrCompile,
}

/// What the build does about the cache.
pub fn build_step(library_in_place: bool, header_in_place: bool) -> (r: BuildStep)
    ensures
        r == (if library_in_place && header_in_place {
            BuildStep::KeepAndSave
        } else {
            BuildStep::LoadOrCompile
        }),
{
    if library_in_place && header_in_place {
        BuildStep::KeepAndSave
    } else {
        BuildStep::LoadOrCompile
    }
}

} // verus!
