use vstd::prelude::*;

use crate::extract::{cleaned_text, create_test_input, has_prefix, Test, TestView};
use crate::outcome::{compile_mode, meets, CompileType, TestResult};
use crate::text::{chars_of, chars_start_with, join_path, join_path_str, push_str_chars, string_of};

verus! {

/// The name of the cache file of a test whose hash is `hash`.
pub open spec fn cache_file_name(hash: Seq<char>) -> Seq<char> {
    "keeper_"@ + hash + ".rs"@
}

/// The stem of that file: the name without `.rs`.
pub open spec fn cache_file_stem(hash: Seq<char>) -> Seq<char> {
    "keeper_"@ + hash
}

/// Where the source of `test` is written in the working directory.
pub fn get_test_path(test: &Test, test_dir: &str) -> (r: String)
    ensures
        r@ == join_path(test_dir@, cache_file_name(test.hash@)),
{
    let mut name = String::new();
    push_str_chars(&mut name, "keeper_");
    push_str_chars(&mut name, test.hash.as_str());
    push_str_chars(&mut name, ".rs");
    let cs = chars_of(name.as_str());
    join_path_str(test_dir, cs.as_slice())
}

/// Where the binary built from `test` is written.
pub fn get_binary_path(test: &Test, test_dir: &str) -> (r: String)
    ensures
        r@ == join_path(test_dir@, "keeper_"@ + test.hash@ + ".exe"@),
{
    let mut name = String::new();
    push_str_chars(&mut name, "keeper_");
    push_str_chars(&mut name, test.hash.as_str());
    push_str_chars(&mut name, ".exe");
    let cs = chars_of(name.as_str());
    join_path_str(test_dir, cs.as_slice())
}

/// What to do with one test of a run.
#[derive(Debug)]
pub enum TestAction {
    /// The test is ignored and gets no result.
    Skip,
    /// Its text passed before: the result is `Cached`.
    UseCache,
    /// Write `source` to `path` and compile it in the given mode.
    Compile { path: String, source: String, mode: CompileType },
}

/// Whether a test is answered from the cache, given whether its file exists.
pub open spec fn uses_cache(t: TestView, file_exists: bool) -> bool {
    !t.ignore && file_exists
}

/// Decides what to do with `test`, given whether its cache file exists in
/// `test_dir`: ignored tests are skipped, cached ones are not compiled again,
/// the others are written out (hidden-line markers removed) and compiled,
/// checked only when `no_run` is set.
pub fn plan_test(test: &Test, test_dir: &str, cache_file_exists: bool) -> (r: TestAction)
    ensures
        r is Skip <==> test.ignore,
        r is UseCache <==> uses_cache(test@, cache_file_exists),
        r matches TestAction::Compile { path, source, mode } ==> {
            &&& path@ == join_path(test_dir@, cache_file_name(test.hash@))
            &&& source@ == cleaned_text(test@.text)
            &&& mode == (if test.no_run { CompileType::Check } else { CompileType::Full })
        },
        !test.ignore && !cache_file_exists ==> r is Compile,
{
    if test.ignore {
        return TestAction::Skip;
    }
    if cache_file_exists {
        return TestAction::UseCache;
    }
    let path = get_test_path(test, test_dir);
    let source = create_test_input(test.text.as_slice());
    TestAction::Compile { path, source, mode: compile_mode(test) }
}

// ---------------------------------------------------------------------------
// Reconciling the working directory
// ---------------------------------------------------------------------------

/// The hash that a cache file's stem names, if the stem has the cache form.
pub open spec fn stem_hash(stem: Seq<char>) -> Option<Seq<char>> {
    if has_prefix(stem, "keeper_"@) {
        Some(stem.skip(7))
    } else {
        None
    }
}

/// Whether some current test with hash `h` met its expectations.
pub open spec fn passes_with_hash(results: Seq<(Test, TestResult)>, h: Seq<char>) -> bool {
    exists|i: int|
        0 <= i < results.len() && (#[trigger] results[i].0@).hash == h && meets(results[i].1, results[i].0@)
}

/// Whether the cache file for hash `h` goes: no current test with that hash
/// met its expectations (none has it, or all that have it failed).
pub open spec fn should_remove(results: Seq<(Test, TestResult)>, h: Seq<char>) -> bool {
    !passes_with_hash(results, h)
}

/// For a file of the working directory, given its stem: `None` when it is not
/// a cache file, else whether it is to be deleted.
pub fn clean_file(results: &[(Test, TestResult)], file_stem: &str) -> (r: Option<bool>)
    ensures
        r is None <==> stem_hash(file_stem@) is None,
        r matches Some(remove) ==> remove == should_remove(results@, stem_hash(file_stem@)->0),
{
    let cs = chars_of(file_stem);
    let prefix = chars_of("keeper_");
    proof {
        reveal_strlit("keeper_");
    }
    if !chars_start_with(cs.as_slice(), prefix.as_slice()) {
        return None;
    }
    let rest = vstd::slice::slice_subrange(cs.as_slice(), 7, cs.len());
    let hash = string_of(rest);
    assert(hash@ == stem_hash(file_stem@)->0);
    let mut i: usize = 0;
    while i < results.len()
        invariant
            i <= results@.len(),
            stem_hash(file_stem@) == Some(hash@),
            forall|j: int|
                0 <= j < i ==> !((#[trigger] results@[j].0@).hash == hash@ && meets(
                    results@[j].1,
                    results@[j].0@,
                )),
        decreases results@.len() - i,
    {
        if results[i].0.hash == hash && results[i].1.met_test_expectations(&results[i].0) {
            assert(results@[i as int].0@.hash == hash@);
            return Some(false);
        }
        i = i + 1;
    }
    Some(true)
}

/// The hashes of cache files left after reconciliation, of those in `present`.
pub open spec fn kept_after(results: Seq<(Test, TestResult)>, present: Set<Seq<char>>) -> Set<Seq<char>> {
    present.filter(|h: Seq<char>| !should_remove(results, h))
}

/// The hashes of the tests whose outcome met their expectations.
pub open spec fn passing_hashes(results: Seq<(Test, TestResult)>) -> Set<Seq<char>> {
    Set::new(|h: Seq<char>| passes_with_hash(results, h))
}

/// Self-cleaning: when every tested hash has its cache file (the state after
/// the tests have run, since a file is written before its test is compiled),
/// reconciliation leaves exactly the files of the tests that met their
/// expectations.
pub proof fn lemma_reconcile_keeps_passing(results: Seq<(Test, TestResult)>, present: Set<Seq<char>>)
    requires
        forall|i: int| 0 <= i < results.len() ==> present.contains(#[trigger] results[i].0@.hash),
    ensures
        kept_after(results, present) == passing_hashes(results),
{
    assert forall|h: Seq<char>| passing_hashes(results).contains(h) implies kept_after(
        results,
        present,
    ).contains(h) by {
        let i = choose|i: int|
            0 <= i < results.len() && (#[trigger] results[i].0@).hash == h && meets(results[i].1, results[i].0@);
        assert(present.contains(results[i].0@.hash));
    }
    assert(kept_after(results, present) =~= passing_hashes(results));
}

/// Idempotence: when every test of a run met its expectations and every
/// tested hash had its cache file, a second run over the same tests answers
/// each of them, unless ignored, from the cache.
pub proof fn lemma_second_run_cached(results: Seq<(Test, TestResult)>, present: Set<Seq<char>>)
    requires
        forall|i: int| 0 <= i < results.len() ==> present.contains(#[trigger] results[i].0@.hash),
        forall|i: int| 0 <= i < results.len() ==> meets(#[trigger] results[i].1, results[i].0@),
    ensures
        forall|i: int|
            0 <= i < results.len() && !results[i].0.ignore ==> uses_cache(
                #[trigger] results[i].0@,
                kept_after(results, present).contains(results[i].0@.hash),
            ),
{
    assert forall|i: int| 0 <= i < results.len() && !results[i].0.ignore implies uses_cache(
        #[trigger] results[i].0@,
        kept_after(results, present).contains(results[i].0@.hash),
    ) by {
        assert(meets(results[i].1, results[i].0@));
        assert(passes_with_hash(results, results[i].0@.hash));
    }
}

/// Shared files: when the tests that carry hash `h` were all answered from
/// the cache, its file stays exactly when some test still carries `h`; a file
/// that no test carries any more goes.
pub proof fn lemma_shared_file(results: Seq<(Test, TestResult)>, h: Seq<char>)
    requires
        forall|i: int| 0 <= i < results.len() && (#[trigger] results[i].0@).hash == h ==> results[i].1 is Cached,
    ensures
        should_remove(results, h) <==> !exists|i: int| 0 <= i < results.len() && (#[trigger] results[i].0@).hash == h,
{
    if exists|i: int| 0 <= i < results.len() && (#[trigger] results[i].0@).hash == h {
        let i = choose|i: int| 0 <= i < results.len() && (#[trigger] results[i].0@).hash == h;
        assert(meets(results[i].1, results[i].0@));
    }
}

} // verus!
