use vstd::prelude::*;

use crate::extract::{string_views, Test, TestView};
use crate::resolve::{fingerprints_view, Fingerprint, FingerprintView};
use crate::text::push_str_chars;

verus! {

/// What a finished process left behind: its exit code (none when a signal
/// ended it) and the bytes it wrote.
#[derive(Debug, Clone)]
pub struct ProcessOutput {
    pub status: Option<i32>,
    pub stdout: Vec<u8>,
    pub stderr: Vec<u8>,
}

pub open spec fn exited_ok(o: ProcessOutput) -> bool {
    o.status == Some(0i32)
}

impl ProcessOutput {
    /// Whether the process exited with code 0.
    pub fn success(&self) -> (r: bool)
        ensures
            r == exited_ok(*self),
    {
        match self.status {
            Some(c) => c == 0,
            None => false,
        }
    }
}

/// The outcome of one test. The compiler's output is kept, not that of the
/// program it built.
#[derive(Debug)]
pub enum TestResult {
    Successful(ProcessOutput),
    CompileFailed(ProcessOutput),
    RunFailed(ProcessOutput),
    /// The same text passed before; nothing was run.
    Cached,
}

/// Whether an outcome is what the test's flags ask for.
pub open spec fn meets(res: TestResult, t: TestView) -> bool {
    match res {
        TestResult::CompileFailed(_) => t.compile_fail,
        TestResult::Successful(_) => !t.should_panic && !t.compile_fail,
        TestResult::RunFailed(_) => t.should_panic,
        TestResult::Cached => true,
    }
}

impl TestResult {
    /// A compile failure is expected of `compile_fail` tests, a run failure
    /// of `should_panic` tests, success of all others; a cached result
    /// passed before and so meets them.
    pub fn met_test_expectations(&self, test: &Test) -> (r: bool)
        ensures
            r == meets(*self, test@),
            self is CompileFailed ==> (r == test.compile_fail),
            self is Successful ==> (r == (!test.should_panic && !test.compile_fail)),
            self is RunFailed ==> (r == test.should_panic),
            self is Cached ==> r,
    {
        match self {
            TestResult::CompileFailed(_) => test.compile_fail,
            TestResult::Successful(_) => !test.should_panic && !test.compile_fail,
            TestResult::RunFailed(_) => test.should_panic,
            TestResult::Cached => true,
        }
    }
}

/// The label that reports an outcome, and whether it is a good one; a cached
/// outcome is not reported one by one.
pub open spec fn label_of(res: TestResult, t: TestView) -> Option<(Seq<char>, bool)> {
    match res {
        TestResult::CompileFailed(_) => if t.compile_fail {
            Some(("(Failed to compile as expected)"@, true))
        } else {
            Some(("(Failed to compile)"@, false))
        },
        TestResult::RunFailed(_) => if t.should_panic {
            Some(("(Panicked as expected)"@, true))
        } else {
            Some(("(Panicked)"@, false))
        },
        TestResult::Successful(_) => if t.should_panic {
            Some(("(Unexpectedly suceeded)"@, false))
        } else {
            Some(("(Passed)"@, true))
        },
        TestResult::Cached => None,
    }
}

impl TestResult {
    /// How the outcome of `test` is reported.
    pub fn result_label(&self, test: &Test) -> (r: Option<(&'static str, bool)>)
        ensures
            (match r {
                Some((l, good)) => Some((l@, good)),
                None => None,
            }) == label_of(*self, test@),
    {
        match self {
            TestResult::CompileFailed(_) => if test.compile_fail {
                Some(("(Failed to compile as expected)", true))
            } else {
                Some(("(Failed to compile)", false))
            },
            TestResult::RunFailed(_) => if test.should_panic {
                Some(("(Panicked as expected)", true))
            } else {
                Some(("(Panicked)", false))
            },
            TestResult::Successful(_) => if test.should_panic {
                Some(("(Unexpectedly suceeded)", false))
            } else {
                Some(("(Passed)", true))
            },
            TestResult::Cached => None,
        }
    }
}

/// The number of cached outcomes.
pub open spec fn cached_count(results: Seq<(Test, TestResult)>) -> nat
    decreases results.len(),
{
    if results.len() == 0 {
        0
    } else {
        cached_count(results.drop_last()) + if results.last().1 is Cached { 1nat } else { 0nat }
    }
}

/// Counts the tests that were answered from the cache.
pub fn count_cached(results: &[(Test, TestResult)]) -> (r: usize)
    ensures
        r == cached_count(results@),
{
    let mut n: usize = 0;
    let mut i: usize = 0;
    while i < results.len()
        invariant
            i <= results@.len(),
            n == cached_count(results@.take(i as int)),
            n <= i,
        decreases results@.len() - i,
    {
        assert(results@.take(i + 1).drop_last() == results@.take(i as int));
        match results[i].1 {
            TestResult::Cached => {
                n = n + 1;
            },
            _ => {},
        }
        i = i + 1;
    }
    assert(results@.take(results@.len() as int) == results@);
    n
}

/// Whether a test is built and run, or only checked.
#[derive(Debug, Clone, Copy, PartialEq, Eq, Structural)]
pub enum CompileType {
    Full,
    Check,
}

/// `no_run` tests are only checked.
pub fn compile_mode(test: &Test) -> (r: CompileType)
    ensures
        r == (if test.no_run { CompileType::Check } else { CompileType::Full }),
{
    if test.no_run {
        CompileType::Check
    } else {
        CompileType::Full
    }
}

/// What follows a compilation.
#[derive(Debug)]
pub enum CompileStep {
    /// The outcome is known.
    Finished(TestResult),
    /// The binary is to be run; the compiler's output is carried along.
    RunBinary(ProcessOutput),
}

/// Decides after the compiler has finished: a failed compilation is a
/// compile failure, a clean check is a success, and a built binary must run.
pub fn after_compile(mode: CompileType, compile: ProcessOutput) -> (r: CompileStep)
    ensures
        !exited_ok(compile) ==> r == CompileStep::Finished(TestResult::CompileFailed(compile)),
        exited_ok(compile) && mode == CompileType::Check ==> r == CompileStep::Finished(
            TestResult::Successful(compile),
        ),
        exited_ok(compile) && mode == CompileType::Full ==> r == CompileStep::RunBinary(compile),
{
    if !compile.success() {
        CompileStep::Finished(TestResult::CompileFailed(compile))
    } else if mode == CompileType::Check {
        CompileStep::Finished(TestResult::Successful(compile))
    } else {
        CompileStep::RunBinary(compile)
    }
}

/// Decides after the built binary has run: its exit status picks the outcome,
/// which keeps the compiler's output.
pub fn after_run(compile: ProcessOutput, run_succeeded: bool) -> (r: TestResult)
    ensures
        run_succeeded ==> r == TestResult::Successful(compile),
        !run_succeeded ==> r == TestResult::RunFailed(compile),
{
    if run_succeeded {
        TestResult::Successful(compile)
    } else {
        TestResult::RunFailed(compile)
    }
}

// ---------------------------------------------------------------------------
// Editions and the compiler invocation
// ---------------------------------------------------------------------------

/// A language edition that a package declares.
#[derive(Debug, Clone, Copy, PartialEq, Eq, Structural)]
pub enum Edition {
    E2015,
    E2018,
    E2021,
    /// An edition this harness does not pass on.
    Unknown,
}

pub open spec fn edition_year(e: Edition) -> Option<nat> {
    match e {
        Edition::E2015 => Some(2015nat),
        Edition::E2018 => Some(2018nat),
        Edition::E2021 => Some(2021nat),
        Edition::Unknown => None,
    }
}

pub open spec fn str_opt_view(o: Option<&str>) -> Option<Seq<char>> {
    match o {
        Some(s) => Some(s@),
        None => None,
    }
}

/// The year of an edition, as text.
pub fn edition_str(edition: Edition) -> (r: Option<&'static str>)
    ensures
        str_opt_view(r) == (match edition {
            Edition::E2015 => Some("2015"@),
            Edition::E2018 => Some("2018"@),
            Edition::E2021 => Some("2021"@),
            Edition::Unknown => None,
        }),
{
    match edition {
        Edition::E2015 => Some("2015"),
        Edition::E2018 => Some("2018"),
        Edition::E2021 => Some("2021"),
        Edition::Unknown => None,
    }
}

/// Whether `e` is a known edition no older than any known one in `s`.
pub open spec fn is_newest(e: Edition, s: Seq<Edition>) -> bool {
    &&& s.contains(e)
    &&& edition_year(e) is Some
    &&& forall|k: int|
        0 <= k < s.len() && edition_year(#[trigger] s[k]) is Some ==> edition_year(s[k])->0
            <= edition_year(e)->0
}

/// The newest known edition among the packages', if any is known.
pub fn newest_edition(editions: &[Edition]) -> (r: Option<Edition>)
    ensures
        r matches Some(e) ==> is_newest(e, editions@),
        r is None ==> forall|k: int| 0 <= k < editions@.len() ==> edition_year(#[trigger] editions@[k]) is None,
{
    let mut best: Option<Edition> = None;
    let mut i: usize = 0;
    while i < editions.len()
        invariant
            i <= editions@.len(),
            best matches Some(e) ==> is_newest(e, editions@.take(i as int)),
            best is None ==> forall|k: int| 0 <= k < i ==> edition_year(#[trigger] editions@[k]) is None,
        decreases editions@.len() - i,
    {
        let e = editions[i];
        let ghost pre = editions@.take(i as int);
        let ghost post = editions@.take(i + 1);
        assert(post == pre.push(e));
        assert(post[i as int] == e);
        let better = match (e, best) {
            (Edition::Unknown, _) => false,
            (_, None) => true,
            (Edition::E2021, Some(b)) => b != Edition::E2021,
            (Edition::E2018, Some(b)) => b == Edition::E2015,
            _ => false,
        };
        if better {
            best = Some(e);
        }
        proof {
            if let Some(b) = best {
                if b == e {
                    assert(post.contains(e));
                } else {
                    let k = choose|k: int| 0 <= k < pre.len() && pre[k] == b;
                    assert(post[k] == b);
                }
                assert forall|k: int| 0 <= k < post.len() && edition_year(#[trigger] post[k]) is Some
                    implies edition_year(post[k])->0 <= edition_year(b)->0 by {
                    if k < pre.len() {
                        assert(post[k] == pre[k]);
                    }
                }
            }
        }
        i = i + 1;
    }
    assert(editions@.take(editions@.len() as int) == editions@);
    best
}

/// What is needed to compile against a project's dependencies.
#[derive(Debug, Clone)]
pub struct LinkSetup {
    /// The newest edition among the project's packages.
    pub edition: Edition,
    pub target_dir: String,
    /// The directory that holds the compiled dependencies.
    pub deps_dir: String,
    pub target_triple: String,
    /// Names passed through as `--extern` flags as they are.
    pub externs: Vec<String>,
    /// The resolved dependency artifacts.
    pub artifacts: Vec<Fingerprint>,
}

pub open spec fn edition_flags(e: Edition) -> Seq<Seq<char>> {
    match e {
        Edition::E2018 => seq!["--edition=2018"@],
        Edition::E2021 => seq!["--edition=2021"@],
        _ => Seq::empty(),
    }
}

pub open spec fn extern_flags(names: Seq<Seq<char>>) -> Seq<Seq<char>>
    decreases names.len(),
{
    if names.len() == 0 {
        Seq::empty()
    } else {
        extern_flags(names.drop_last()) + seq!["--extern"@, names.last()]
    }
}

pub open spec fn archive_path(f: FingerprintView) -> Seq<char> {
    match f.rlib {
        Some(p) => p,
        None => Seq::empty(),
    }
}

pub open spec fn artifact_flags(arts: Seq<FingerprintView>) -> Seq<Seq<char>>
    decreases arts.len(),
{
    if arts.len() == 0 {
        Seq::empty()
    } else {
        artifact_flags(arts.drop_last()) + seq![
            "--extern"@,
            arts.last().libname + "="@ + archive_path(arts.last()),
        ]
    }
}

pub open spec fn link_flags(l: LinkSetup) -> Seq<Seq<char>> {
    edition_flags(l.edition) + seq![
        "-L"@,
        l.target_dir@,
        "-L"@,
        l.deps_dir@,
        "--target"@,
        l.target_triple@,
    ] + extern_flags(string_views(l.externs@)) + artifact_flags(fingerprints_view(l.artifacts@))
}

pub open spec fn output_flags(mode: CompileType, binary: Seq<char>) -> Seq<Seq<char>> {
    match mode {
        CompileType::Full => seq!["-o"@, binary],
        CompileType::Check => seq!["--emit=dep-info="@ + binary + ".d,metadata="@ + binary + ".m"@],
    }
}

/// The compiler arguments for one test.
pub open spec fn compile_args_of(
    source: Seq<char>,
    binary: Seq<char>,
    mode: CompileType,
    colors: bool,
    link: Option<LinkSetup>,
) -> Seq<Seq<char>> {
    seq![
        source,
        "--verbose"@,
        if colors { "--color=always"@ } else { "--color=never"@ },
        match mode {
            CompileType::Full => "--crate-type=bin"@,
            CompileType::Check => "--crate-type=lib"@,
        },
    ] + match link {
        Some(l) => link_flags(l),
        None => Seq::empty(),
    } + output_flags(mode, binary)
}

fn owned(t: &str) -> (r: String)
    ensures
        r@ == t@,
{
    let mut r = String::new();
    push_str_chars(&mut r, t);
    r
}

fn push_arg(args: &mut Vec<String>, a: String)
    ensures
        string_views(final(args)@) == string_views(old(args)@).push(a@),
{
    let ghost before = args@;
    args.push(a);
    assert(string_views(before.push(a)) =~= string_views(before).push(a@));
}

fn push_extern_flags(args: &mut Vec<String>, externs: &[String])
    ensures
        string_views(final(args)@) == string_views(old(args)@) + extern_flags(string_views(externs@)),
{
    let ghost start = string_views(args@);
    let mut i: usize = 0;
    while i < externs.len()
        invariant
            i <= externs@.len(),
            string_views(args@) == start + extern_flags(string_views(externs@.take(i as int))),
        decreases externs@.len() - i,
    {
        assert(string_views(externs@.take(i + 1)).drop_last() == string_views(externs@.take(i as int)));
        push_arg(args, owned("--extern"));
        push_arg(args, externs[i].clone());
        i = i + 1;
    }
    assert(externs@.take(externs@.len() as int) == externs@);
}

fn push_artifact_flags(args: &mut Vec<String>, arts: &[Fingerprint])
    ensures
        string_views(final(args)@) == string_views(old(args)@) + artifact_flags(fingerprints_view(arts@)),
{
    let ghost start = string_views(args@);
    let mut j: usize = 0;
    while j < arts.len()
        invariant
            j <= arts@.len(),
            string_views(args@) == start + artifact_flags(fingerprints_view(arts@.take(j as int))),
        decreases arts@.len() - j,
    {
        let a = &arts[j];
        assert(fingerprints_view(arts@.take(j + 1)).drop_last() == fingerprints_view(arts@.take(j as int)));
        assert(fingerprints_view(arts@.take(j + 1)).last() == a@);
        push_arg(args, owned("--extern"));
        let mut flag = a.libname.clone();
        push_str_chars(&mut flag, "=");
        match &a.rlib {
            Some(p) => push_str_chars(&mut flag, p.as_str()),
            None => {},
        }
        push_arg(args, flag);
        j = j + 1;
    }
    assert(arts@.take(arts@.len() as int) == arts@);
}

fn push_link_flags(args: &mut Vec<String>, l: &LinkSetup)
    ensures
        string_views(final(args)@) == string_views(old(args)@) + link_flags(*l),
{
    let ghost start = string_views(args@);
    match l.edition {
        Edition::E2018 => push_arg(args, owned("--edition=2018")),
        Edition::E2021 => push_arg(args, owned("--edition=2021")),
        _ => {},
    }
    push_arg(args, owned("-L"));
    push_arg(args, l.target_dir.clone());
    push_arg(args, owned("-L"));
    push_arg(args, l.deps_dir.clone());
    push_arg(args, owned("--target"));
    push_arg(args, l.target_triple.clone());
    let ghost fixed = string_views(args@);
    assert(fixed =~= start + edition_flags(l.edition) + seq![
        "-L"@,
        l.target_dir@,
        "-L"@,
        l.deps_dir@,
        "--target"@,
        l.target_triple@,
    ]);
    push_extern_flags(args, l.externs.as_slice());
    push_artifact_flags(args, l.artifacts.as_slice());
    assert(string_views(args@) =~= start + link_flags(*l));
}

/// The arguments to hand the compiler for the test at `source`, whose binary
/// (or, when checking, whose metadata files) go next to `binary`.
pub fn compile_args(
    source: &str,
    binary: &str,
    mode: CompileType,
    terminal_colors: bool,
    link: &Option<LinkSetup>,
) -> (r: Vec<String>)
    ensures
        string_views(r@) == compile_args_of(source@, binary@, mode, terminal_colors, *link),
{
    let mut args: Vec<String> = Vec::new();
    push_arg(&mut args, owned(source));
    push_arg(&mut args, owned("--verbose"));
    push_arg(&mut args, owned(if terminal_colors { "--color=always" } else { "--color=never" }));
    push_arg(
        &mut args,
        owned(
            match mode {
                CompileType::Full => "--crate-type=bin",
                CompileType::Check => "--crate-type=lib",
            },
        ),
    );
    match link {
        Some(l) => push_link_flags(&mut args, l),
        None => {},
    }
    match mode {
        CompileType::Full => {
            push_arg(&mut args, owned("-o"));
            push_arg(&mut args, owned(binary));
        },
        CompileType::Check => {
            let mut emit = owned("--emit=dep-info=");
            push_str_chars(&mut emit, binary);
            push_str_chars(&mut emit, ".d,metadata=");
            push_str_chars(&mut emit, binary);
            push_str_chars(&mut emit, ".m");
            push_arg(&mut args, emit);
        },
    }
    assert(string_views(args@) =~= compile_args_of(source@, binary@, mode, terminal_colors, *link));
    args
}

} // verus!
