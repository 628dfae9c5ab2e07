use vstd::prelude::*;
use vstd::utf8::encode_utf8;

use crate::extract::{extract_tests_from_string, extracted, opt_view, string_views, tests_view, Test, TestView};
use crate::markdown::markdown_events;
use crate::resolve::underscored;
use crate::text::{chars_of, join_path, join_path_str, string_of};

verus! {

/// The slug that the slug crate makes of a text.
pub uninterp spec fn slug_of(s: Seq<char>) -> Seq<char>;

/// Relies on `slug::slugify`: the text turned into a slug of `a`-`z`, `0`-`9`
/// and `-`.
#[verifier::external_body]
fn slugify(s: &str) -> (r: String)
    ensures
        r@ == slug_of(s@),
{
    slug::slugify(s)
}

/// One page of the documentation: its title, the stem of its file if it has
/// one, and its markdown text.
#[derive(Debug, Clone)]
pub struct Page {
    pub name: String,
    pub path_stem: Option<String>,
    pub content: String,
}

/// The stem that names the tests of a page: its file's stem, or else the slug
/// of its title with `_` for `-`.
pub open spec fn page_stem(p: Page) -> Seq<char> {
    match p.path_stem {
        Some(s) => s@,
        None => underscored(slug_of(p.name@)),
    }
}

/// The tests of the pages, page after page.
pub open spec fn book_tests(pages: Seq<Page>) -> Seq<TestView>
    decreases pages.len(),
{
    if pages.len() == 0 {
        Seq::empty()
    } else {
        let p = pages.last();
        book_tests(pages.drop_last()) + extracted(
            markdown_events(p.content@),
            encode_utf8(p.content@),
            page_stem(p),
        )
    }
}

fn stem_of_page(p: &Page) -> (r: String)
    ensures
        r@ == page_stem(*p),
{
    match &p.path_stem {
        Some(s) => s.clone(),
        None => {
            let slug = slugify(p.name.as_str());
            let cs = chars_of(slug.as_str());
            let mut out: Vec<char> = Vec::new();
            let mut i: usize = 0;
            while i < cs.len()
                invariant
                    i <= cs@.len(),
                    out@ == underscored(cs@.take(i as int)),
                decreases cs@.len() - i,
            {
                out.push(if cs[i] == '-' { '_' } else { cs[i] });
                assert(underscored(cs@.take(i + 1)) =~= underscored(cs@.take(i as int)).push(
                    if cs@[i as int] == '-' { '_' } else { cs@[i as int] },
                ));
                i = i + 1;
            }
            assert(cs@.take(cs@.len() as int) == cs@);
            string_of(out.as_slice())
        },
    }
}

/// Collects the tests of all pages, in page order (a chapter before the
/// chapters nested in it).
pub fn get_tests_from_items(pages: &[Page]) -> (r: Vec<Test>)
    ensures
        tests_view(r@) == book_tests(pages@),
{
    let mut all: Vec<Test> = Vec::new();
    let mut i: usize = 0;
    while i < pages.len()
        invariant
            i <= pages@.len(),
            tests_view(all@) == book_tests(pages@.take(i as int)),
        decreases pages@.len() - i,
    {
        assert(pages@.take(i + 1).drop_last() == pages@.take(i as int));
        let stem = stem_of_page(&pages[i]);
        let (mut tests, _) = extract_tests_from_string(pages[i].content.as_str(), stem.as_str());
        let ghost before = all@;
        let ghost added = tests@;
        all.append(&mut tests);
        assert(tests_view(before + added) =~= tests_view(before) + tests_view(added));
        i = i + 1;
    }
    assert(pages@.take(pages@.len() as int) == pages@);
    all
}

// ---------------------------------------------------------------------------
// Configuration
// ---------------------------------------------------------------------------

/// The settings as the book's configuration gives them; each may be absent.
#[derive(Debug, Clone)]
pub struct KeeperConfigParser {
    /// Library names passed to the compiler as `--extern` flags.
    pub externs: Vec<String>,
    /// The working directory for cached tests.
    pub test_dir: Option<String>,
    /// The build-output directory of the project under test.
    pub target_dir: Option<String>,
    /// The directory holding the project's manifest.
    pub manifest_dir: Option<String>,
    pub terminal_colors: Option<bool>,
}

/// The settings of a run, with defaults filled in.
#[derive(Debug, Clone)]
pub struct KeeperConfig {
    pub test_dir: String,
    pub target_dir: String,
    pub manifest_dir: Option<String>,
    pub terminal_colors: bool,
    pub externs: Vec<String>,
}

fn clone_opt_string(o: &Option<String>) -> (r: Option<String>)
    ensures
        opt_view(r) == opt_view(*o),
{
    match o {
        Some(s) => Some(s.clone()),
        None => None,
    }
}

impl KeeperConfig {
    /// Fills in the defaults: the working directory is `doctest_cache` under
    /// the book's `root`, the build output `target` under the working
    /// directory, and colours follow whether standard error is a terminal.
    pub fn new(parsed: &KeeperConfigParser, root: &str, stderr_is_terminal: bool) -> (r: KeeperConfig)
        ensures
            r.test_dir@ == (match parsed.test_dir {
                Some(d) => d@,
                None => join_path(root@, "doctest_cache"@),
            }),
            r.target_dir@ == (match parsed.target_dir {
                Some(d) => d@,
                None => join_path(r.test_dir@, "target"@),
            }),
            opt_view(r.manifest_dir) == opt_view(parsed.manifest_dir),
            r.terminal_colors == (match parsed.terminal_colors {
                Some(c) => c,
                None => stderr_is_terminal,
            }),
            string_views(r.externs@) == string_views(parsed.externs@),
    {
        let test_dir = match &parsed.test_dir {
            Some(d) => d.clone(),
            None => {
                let rel = chars_of("doctest_cache");
                join_path_str(root, rel.as_slice())
            },
        };
        let target_dir = match &parsed.target_dir {
            Some(d) => d.clone(),
            None => {
                let rel = chars_of("target");
                join_path_str(test_dir.as_str(), rel.as_slice())
            },
        };
        let terminal_colors = match parsed.terminal_colors {
            Some(c) => c,
            None => stderr_is_terminal,
        };
        let mut externs: Vec<String> = Vec::new();
        let mut i: usize = 0;
        while i < parsed.externs.len()
            invariant
                i <= parsed.externs@.len(),
                string_views(externs@) == string_views(parsed.externs@.take(i as int)),
            decreases parsed.externs@.len() - i,
        {
            let e = parsed.externs[i].clone();
            let ghost before = externs@;
            externs.push(e);
            assert(string_views(before.push(e)) =~= string_views(before).push(e@));
            assert(string_views(parsed.externs@.take(i + 1)) =~= string_views(parsed.externs@.take(i as int)).push(e@));
            i = i + 1;
        }
        assert(parsed.externs@.take(parsed.externs@.len() as int) == parsed.externs@);
        KeeperConfig {
            test_dir,
            target_dir,
            manifest_dir: clone_opt_string(&parsed.manifest_dir),
            terminal_colors,
            externs,
        }
    }
}

/// Where the compiled dependencies stand under a build-output directory.
pub fn deps_dir(target_dir: &str) -> (r: String)
    ensures
        r@ == join_path(target_dir@, "debug/deps"@),
{
    let rel = chars_of("debug/deps");
    join_path_str(target_dir, rel.as_slice())
}

/// Where the fingerprint descriptors stand under a build-output directory.
pub fn fingerprint_dir(target_dir: &str) -> (r: String)
    ensures
        r@ == join_path(target_dir@, ".fingerprint/"@),
{
    let rel = chars_of(".fingerprint/");
    join_path_str(target_dir, rel.as_slice())
}

/// The documentation-test preprocessor.
#[derive(Debug, Clone, Copy)]
pub struct BookKeeper;

impl BookKeeper {
    pub fn new() -> BookKeeper {
        BookKeeper
    }

    /// The name under which the book's configuration lists this preprocessor.
    pub fn name(&self) -> (r: &'static str)
        ensures
            r@ == "keeper"@,
    {
        "keeper"
    }

    /// Every renderer is supported but the one named `not-supported`.
    pub fn supports_renderer(&self, renderer: &str) -> (r: bool)
        ensures
            r == (renderer@ != "not-supported"@),
    {
        let a = chars_of(renderer);
        let b = chars_of("not-supported");
        !crate::text::chars_eq(a.as_slice(), b.as_slice())
    }
}

} // verus!
