use vstd::prelude::*;

use crate::extract::{opt_view, string_views};
use crate::text::{chars_of, char_is_whitespace, join_path, join_path_str, push_str_chars, string_of, unicode_whitespace};

verus! {

// ---------------------------------------------------------------------------
// Locked dependencies
// ---------------------------------------------------------------------------

/// One node of the dependency graph that the metadata tool reports: a package
/// id and the ids of the packages it depends on.
#[derive(Debug, Clone)]
pub struct ResolveNode {
    pub id: String,
    pub dependencies: Vec<String>,
}

/// Why the locked dependencies could not be read.
#[derive(Debug, Clone, Copy, PartialEq, Eq)]
pub enum ResolveError {
    /// The metadata holds no resolved dependency graph.
    MissingResolve,
}

/// The package ids that a project's own packages depend on, followed by the
/// ids of those packages themselves.
#[derive(Debug, Clone)]
pub struct LockedDeps {
    pub dependencies: Vec<String>,
}

pub open spec fn seq_has(s: Seq<Seq<char>>, x: Seq<char>) -> bool {
    exists|k: int| 0 <= k < s.len() && s[k] == x
}

/// The dependency ids of the workspace members' nodes, in node order.
pub open spec fn member_deps(members: Seq<Seq<char>>, nodes: Seq<ResolveNode>) -> Seq<Seq<char>>
    decreases nodes.len(),
{
    if nodes.len() == 0 {
        Seq::empty()
    } else {
        let prev = member_deps(members, nodes.drop_last());
        if seq_has(members, nodes.last().id@) {
            prev + string_views(nodes.last().dependencies@)
        } else {
            prev
        }
    }
}

fn contains_string(v: &[String], x: &String) -> (r: bool)
    ensures
        r == seq_has(string_views(v@), x@),
{
    let mut i: usize = 0;
    while i < v.len()
        invariant
            i <= v@.len(),
            forall|k: int| 0 <= k < i ==> v@[k]@ != x@,
        decreases v@.len() - i,
    {
        if v[i] == *x {
            assert(string_views(v@)[i as int] == x@);
            return true;
        }
        i = i + 1;
    }
    assert forall|k: int| 0 <= k < string_views(v@).len() implies string_views(v@)[k] != x@ by {
        assert(string_views(v@)[k] == v@[k]@);
    }
    false
}

impl LockedDeps {
    /// Gathers the dependencies of the workspace members from the resolved
    /// graph, then the members themselves.
    pub fn from_metadata(workspace_members: &[String], resolve: Option<Vec<ResolveNode>>) -> (r: Result<
        LockedDeps,
        ResolveError,
    >)
        ensures
            resolve is None ==> r == Err::<LockedDeps, ResolveError>(ResolveError::MissingResolve),
            resolve matches Some(nodes) ==> r matches Ok(l) && string_views(l.dependencies@)
                == member_deps(string_views(workspace_members@), nodes@) + string_views(
                workspace_members@,
            ),
    {
        let nodes = match resolve {
            Some(nodes) => nodes,
            None => {
                return Err(ResolveError::MissingResolve);
            },
        };
        let ghost members = string_views(workspace_members@);
        let mut deps: Vec<String> = Vec::new();
        let mut i: usize = 0;
        while i < nodes.len()
            invariant
                i <= nodes@.len(),
                members == string_views(workspace_members@),
                string_views(deps@) == member_deps(members, nodes@.take(i as int)),
            decreases nodes@.len() - i,
        {
            assert(nodes@.take(i + 1).drop_last() == nodes@.take(i as int));
            if contains_string(workspace_members, &nodes[i].id) {
                let mut j: usize = 0;
                let ghost start = deps@;
                while j < nodes[i].dependencies.len()
                    invariant
                        i < nodes@.len(),
                        j <= nodes@[i as int].dependencies@.len(),
                        string_views(deps@) == string_views(start) + string_views(
                            nodes@[i as int].dependencies@.take(j as int),
                        ),
                    decreases nodes@[i as int].dependencies@.len() - j,
                {
                    let d = nodes[i].dependencies[j].clone();
                    let ghost before = deps@;
                    deps.push(d);
                    assert(string_views(before.push(d)) =~= string_views(before).push(d@));
                    assert(string_views(nodes@[i as int].dependencies@.take(j + 1)) =~= string_views(
                        nodes@[i as int].dependencies@.take(j as int),
                    ).push(d@));
                    j = j + 1;
                }
                assert(nodes@[i as int].dependencies@.take(j as int) == nodes@[i as int].dependencies@);
            }
            i = i + 1;
        }
        assert(nodes@.take(nodes@.len() as int) == nodes@);
        let mut k: usize = 0;
        let ghost base = deps@;
        while k < workspace_members.len()
            invariant
                k <= workspace_members@.len(),
                string_views(deps@) == string_views(base) + string_views(workspace_members@.take(k as int)),
            decreases workspace_members@.len() - k,
        {
            let m = workspace_members[k].clone();
            let ghost before = deps@;
            deps.push(m);
            assert(string_views(before.push(m)) =~= string_views(before).push(m@));
            assert(string_views(workspace_members@.take(k + 1)) =~= string_views(
                workspace_members@.take(k as int),
            ).push(m@));
            k = k + 1;
        }
        assert(workspace_members@.take(workspace_members@.len() as int) == workspace_members@);
        Ok(LockedDeps { dependencies: deps })
    }
}

} // verus!

verus! {

/// Scans `s` for its whitespace-separated words: the finished words and the
/// word being read.
pub open spec fn word_scan(s: Seq<char>) -> (Seq<Seq<char>>, Seq<char>)
    decreases s.len(),
{
    if s.len() == 0 {
        (Seq::empty(), Seq::empty())
    } else {
        let prev = word_scan(s.drop_last());
        if unicode_whitespace(s.last()) {
            (if prev.1.len() > 0 { prev.0.push(prev.1) } else { prev.0 }, Seq::empty())
        } else {
            (prev.0, prev.1.push(s.last()))
        }
    }
}

/// The words of `s`, as `str::split_whitespace` yields them.
pub open spec fn words(s: Seq<char>) -> Seq<Seq<char>> {
    let sc = word_scan(s);
    if sc.1.len() > 0 {
        sc.0.push(sc.1)
    } else {
        sc.0
    }
}

/// `s` with each `-` replaced by `_`.
pub open spec fn underscored(s: Seq<char>) -> Seq<char> {
    s.map_values(|c: char| if c == '-' { '_' } else { c })
}

/// The (name, version) that a package id of the form `name version ...` names.
pub open spec fn locked_pair(id: Seq<char>) -> Option<(Seq<char>, Seq<char>)> {
    let w = words(id);
    if w.len() >= 2 {
        Some((underscored(w[0]), w[1]))
    } else {
        None
    }
}

/// The (name, version) pairs of the ids that have that form, in order.
pub open spec fn locked_pairs(ids: Seq<Seq<char>>) -> Seq<(Seq<char>, Seq<char>)>
    decreases ids.len(),
{
    if ids.len() == 0 {
        Seq::empty()
    } else {
        match locked_pair(ids.last()) {
            Some(p) => locked_pairs(ids.drop_last()).push(p),
            None => locked_pairs(ids.drop_last()),
        }
    }
}

pub open spec fn pairs_view(v: Seq<(String, String)>) -> Seq<(Seq<char>, Seq<char>)> {
    v.map_values(|p: (String, String)| (p.0@, p.1@))
}

fn words_of(s: &str) -> (r: Vec<Vec<char>>)
    ensures
        r@.map_values(|w: Vec<char>| w@) == words(s@),
{
    let cs = chars_of(s);
    let mut done: Vec<Vec<char>> = Vec::new();
    let mut cur: Vec<char> = Vec::new();
    let mut i: usize = 0;
    while i < cs.len()
        invariant
            i <= cs@.len(),
            cs@ == s@,
            word_scan(cs@.take(i as int)) == (done@.map_values(|w: Vec<char>| w@), cur@),
        decreases cs@.len() - i,
    {
        let c = cs[i];
        assert(cs@.take(i + 1).drop_last() == cs@.take(i as int));
        if char_is_whitespace(c) {
            if cur.len() > 0 {
                let ghost before = done@;
                let w = cur;
                done.push(w);
                assert(before.push(w).map_values(|w: Vec<char>| w@) =~= before.map_values(
                    |w: Vec<char>| w@,
                ).push(w@));
            }
            cur = Vec::new();
        } else {
            cur.push(c);
        }
        i = i + 1;
    }
    assert(cs@.take(cs@.len() as int) == cs@);
    if cur.len() > 0 {
        let ghost before = done@;
        let w = cur;
        done.push(w);
        assert(before.push(w).map_values(|w: Vec<char>| w@) =~= before.map_values(|w: Vec<char>| w@).push(
            w@,
        ));
    }
    done
}

fn underscore_chars(v: &[char]) -> (r: String)
    ensures
        r@ == underscored(v@),
{
    let mut out: Vec<char> = Vec::new();
    let mut i: usize = 0;
    while i < v.len()
        invariant
            i <= v@.len(),
            out@ == underscored(v@.take(i as int)),
        decreases v@.len() - i,
    {
        out.push(if v[i] == '-' { '_' } else { v[i] });
        assert(underscored(v@.take(i + 1)) =~= underscored(v@.take(i as int)).push(
            if v@[i as int] == '-' { '_' } else { v@[i as int] },
        ));
        i = i + 1;
    }
    assert(v@.take(v@.len() as int) == v@);
    string_of(out.as_slice())
}

impl LockedDeps {
    /// The (name, version) of each dependency, names with `-` turned into `_`;
    /// ids that do not start with a name and a version are passed over.
    pub fn pairs(&self) -> (r: Vec<(String, String)>)
        ensures
            pairs_view(r@) == locked_pairs(string_views(self.dependencies@)),
    {
        let mut out: Vec<(String, String)> = Vec::new();
        let mut i: usize = 0;
        while i < self.dependencies.len()
            invariant
                i <= self.dependencies@.len(),
                pairs_view(out@) == locked_pairs(string_views(self.dependencies@.take(i as int))),
            decreases self.dependencies@.len() - i,
        {
            assert(string_views(self.dependencies@.take(i + 1)).drop_last() == string_views(
                self.dependencies@.take(i as int),
            ));
            let w = words_of(self.dependencies[i].as_str());
            if w.len() >= 2 {
                let name = underscore_chars(w[0].as_slice());
                let version = string_of(w[1].as_slice());
                let ghost before = out@;
                out.push((name, version));
                assert(pairs_view(before.push((name, version))) =~= pairs_view(before).push(
                    (name@, version@),
                ));
            }
            i = i + 1;
        }
        assert(self.dependencies@.take(self.dependencies@.len() as int) == self.dependencies@);
        out
    }
}

} // verus!

verus! {

// ---------------------------------------------------------------------------
// Fingerprints and their disambiguation
// ---------------------------------------------------------------------------

/// One build-output candidate for a dependency: its library name, its version
/// where known, the archive file found for it, and when it was built
/// (nanoseconds since the epoch).
#[derive(Debug, Clone)]
pub struct Fingerprint {
    pub libname: String,
    pub version: Option<String>,
    pub rlib: Option<String>,
    pub mtime: u128,
}

pub struct FingerprintView {
    pub libname: Seq<char>,
    pub version: Option<Seq<char>>,
    pub rlib: Option<Seq<char>>,
    pub mtime: nat,
}

impl View for Fingerprint {
    type V = FingerprintView;

    open spec fn view(&self) -> FingerprintView {
        FingerprintView {
            libname: self.libname@,
            version: opt_view(self.version),
            rlib: opt_view(self.rlib),
            mtime: self.mtime as nat,
        }
    }
}

pub open spec fn fingerprints_view(v: Seq<Fingerprint>) -> Seq<FingerprintView> {
    v.map_values(|f: Fingerprint| f@)
}

fn clone_opt(o: &Option<String>) -> (r: Option<String>)
    ensures
        opt_view(r) == opt_view(*o),
{
    match o {
        Some(s) => Some(s.clone()),
        None => None,
    }
}

fn opt_eq(a: &Option<String>, b: &Option<String>) -> (r: bool)
    ensures
        r == (opt_view(*a) == opt_view(*b)),
{
    match (a, b) {
        (Some(x), Some(y)) => *x == *y,
        (None, None) => true,
        _ => false,
    }
}

impl Fingerprint {
    pub fn name(&self) -> (r: String)
        ensures
            r@ == self.libname@,
    {
        self.libname.clone()
    }

    pub fn version(&self) -> (r: Option<String>)
        ensures
            opt_view(r) == opt_view(self.version),
    {
        clone_opt(&self.version)
    }

    /// An equal copy.
    pub fn duplicate(&self) -> (r: Fingerprint)
        ensures
            r@ == self@,
    {
        Fingerprint {
            libname: self.libname.clone(),
            version: clone_opt(&self.version),
            rlib: clone_opt(&self.rlib),
            mtime: self.mtime,
        }
    }
}

/// The version locked for `name`: that of its first pair.
pub open spec fn locked_version(locked: Seq<(Seq<char>, Seq<char>)>, name: Seq<char>) -> Option<Seq<char>>
    decreases locked.len(),
{
    if locked.len() == 0 {
        None
    } else if locked[0].0 == name {
        Some(locked[0].1)
    } else {
        locked_version(locked.drop_first(), name)
    }
}

/// The index of the first fingerprint named `name`, or the length if none is.
pub open spec fn find_name(found: Seq<FingerprintView>, name: Seq<char>) -> int
    decreases found.len(),
{
    if found.len() == 0 {
        0
    } else if found[0].libname == name {
        0
    } else {
        1 + find_name(found.drop_first(), name)
    }
}

proof fn lemma_find_name_bound(found: Seq<FingerprintView>, name: Seq<char>)
    ensures
        0 <= find_name(found, name) <= found.len(),
        find_name(found, name) < found.len() ==> found[find_name(found, name)].libname == name,
    decreases found.len(),
{
    if found.len() > 0 && found[0].libname != name {
        lemma_find_name_bound(found.drop_first(), name);
    }
}

/// The retained fingerprints after candidate `c`: a first candidate for a
/// locked name is kept when its version is unknown or equals the locked one;
/// a later one replaces it only with the locked version and a newer build.
pub open spec fn resolve_step(
    found: Seq<FingerprintView>,
    c: FingerprintView,
    locked: Seq<(Seq<char>, Seq<char>)>,
) -> Seq<FingerprintView> {
    match locked_version(locked, c.libname) {
        None => found,
        Some(ver) => {
            let k = find_name(found, c.libname);
            if k < found.len() {
                if c.version == Some(ver) && found[k].mtime < c.mtime {
                    found.update(k, c)
                } else {
                    found
                }
            } else if c.version is None || c.version == Some(ver) {
                found.push(c)
            } else {
                found
            }
        },
    }
}

pub open spec fn resolve_run(
    locked: Seq<(Seq<char>, Seq<char>)>,
    cands: Seq<FingerprintView>,
) -> Seq<FingerprintView>
    decreases cands.len(),
{
    if cands.len() == 0 {
        Seq::empty()
    } else {
        resolve_step(resolve_run(locked, cands.drop_last()), cands.last(), locked)
    }
}

/// The fingerprints in `s` whose archive file was found.
pub open spec fn linked_only(s: Seq<FingerprintView>) -> Seq<FingerprintView>
    decreases s.len(),
{
    if s.len() == 0 {
        Seq::empty()
    } else if s.last().rlib is Some {
        linked_only(s.drop_last()).push(s.last())
    } else {
        linked_only(s.drop_last())
    }
}

/// The artifacts to link: one per locked name, those without an archive file
/// left out.
pub open spec fn resolved(
    locked: Seq<(Seq<char>, Seq<char>)>,
    cands: Seq<FingerprintView>,
) -> Seq<FingerprintView> {
    linked_only(resolve_run(locked, cands))
}

fn lookup_locked(locked: &[(String, String)], name: &String) -> (r: Option<String>)
    ensures
        opt_view(r) == locked_version(pairs_view(locked@), name@),
{
    let ghost all = pairs_view(locked@);
    assert(all.skip(0) == all);
    let mut i: usize = 0;
    while i < locked.len()
        invariant
            i <= locked@.len(),
            all == pairs_view(locked@),
            locked_version(all, name@) == locked_version(all.skip(i as int), name@),
        decreases locked@.len() - i,
    {
        assert(all.skip(i as int)[0] == all[i as int]);
        assert(all.skip(i as int).drop_first() == all.skip(i + 1));
        if locked[i].0 == *name {
            return Some(locked[i].1.clone());
        }
        i = i + 1;
    }
    assert(all.skip(i as int).len() == 0);
    None
}

fn find_slot(found: &Vec<Fingerprint>, name: &String) -> (r: usize)
    ensures
        r as int == find_name(fingerprints_view(found@), name@),
{
    let ghost all = fingerprints_view(found@);
    assert(all.skip(0) == all);
    let mut i: usize = 0;
    while i < found.len()
        invariant
            i <= found@.len(),
            all == fingerprints_view(found@),
            find_name(all, name@) == i + find_name(all.skip(i as int), name@),
        decreases found@.len() - i,
    {
        assert(all.skip(i as int)[0] == all[i as int]);
        assert(all.skip(i as int).drop_first() == all.skip(i + 1));
        if found[i].libname == *name {
            return i;
        }
        i = i + 1;
    }
    assert(all.skip(i as int).len() == 0);
    i
}

/// Picks, for each locked dependency, the build artifact to link against:
/// candidates are taken in order and disambiguated by version and build time,
/// and those whose archive file is missing are dropped.
pub fn get_rlib_dependencies(locked: &[(String, String)], candidates: &[Fingerprint]) -> (r: Vec<Fingerprint>)
    ensures
        fingerprints_view(r@) == resolved(pairs_view(locked@), fingerprints_view(candidates@)),
{
    let ghost lk = pairs_view(locked@);
    let mut found: Vec<Fingerprint> = Vec::new();
    let mut i: usize = 0;
    while i < candidates.len()
        invariant
            i <= candidates@.len(),
            lk == pairs_view(locked@),
            fingerprints_view(found@) == resolve_run(lk, fingerprints_view(candidates@.take(i as int))),
        decreases candidates@.len() - i,
    {
        let c = &candidates[i];
        assert(fingerprints_view(candidates@.take(i + 1)).drop_last() == fingerprints_view(
            candidates@.take(i as int),
        ));
        assert(fingerprints_view(candidates@.take(i + 1)).last() == c@);
        let ghost before = found@;
        proof {
            lemma_find_name_bound(fingerprints_view(found@), c.libname@);
        }
        match lookup_locked(locked, &c.libname) {
            None => {},
            Some(ver) => {
                let k = find_slot(&found, &c.libname);
                let wanted = Some(ver);
                if k < found.len() {
                    if opt_eq(&c.version, &wanted) && found[k].mtime < c.mtime {
                        found.set(k, c.duplicate());
                        assert(fingerprints_view(found@) =~= fingerprints_view(before).update(k as int, c@));
                    }
                } else if c.version.is_none() || opt_eq(&c.version, &wanted) {
                    found.push(c.duplicate());
                    assert(fingerprints_view(found@) =~= fingerprints_view(before).push(c@));
                }
            },
        }
        i = i + 1;
    }
    assert(candidates@.take(candidates@.len() as int) == candidates@);
    let mut out: Vec<Fingerprint> = Vec::new();
    let mut j: usize = 0;
    while j < found.len()
        invariant
            j <= found@.len(),
            fingerprints_view(out@) == linked_only(fingerprints_view(found@.take(j as int))),
        decreases found@.len() - j,
    {
        assert(fingerprints_view(found@.take(j + 1)).drop_last() == fingerprints_view(found@.take(j as int)));
        assert(fingerprints_view(found@.take(j + 1)).last() == found@[j as int]@);
        if found[j].rlib.is_some() {
            let ghost before = out@;
            let f = found[j].duplicate();
            out.push(f);
            assert(fingerprints_view(before.push(f)) =~= fingerprints_view(before).push(f@));
        }
        j = j + 1;
    }
    assert(found@.take(found@.len() as int) == found@);
    out
}

} // verus!

verus! {

// ---------------------------------------------------------------------------
// Fingerprint descriptors and archive files
// ---------------------------------------------------------------------------

/// The index of the last `-` in `s`, or -1.
pub open spec fn last_dash(s: Seq<char>) -> int
    decreases s.len(),
{
    if s.len() == 0 {
        -1
    } else if s.last() == '-' {
        s.len() - 1
    } else {
        last_dash(s.drop_last())
    }
}

/// The library name and build hash that a fingerprint directory's name
/// `<name>-<hash>` carries; `-` in the name becomes `_`.
pub open spec fn descriptor_name(dir_stem: Seq<char>) -> (Seq<char>, Seq<char>) {
    let k = last_dash(dir_stem);
    if k < 0 {
        (Seq::empty(), dir_stem)
    } else {
        (underscored(dir_stem.take(k)), dir_stem.skip(k + 1))
    }
}

/// For a file under the fingerprint tree, given its directory's stem and its
/// own extension: the (library name, hash) it describes, when it is a `json`
/// descriptor.
pub fn descriptor_parts(dir_stem: &str, extension: &Option<String>) -> (r: Option<(String, String)>)
    ensures
        r is None <==> !(opt_view(*extension) == Some("json"@)),
        r matches Some(p) ==> (p.0@, p.1@) == descriptor_name(dir_stem@),
{
    let is_json = match extension {
        Some(e) => {
            let ec = chars_of(e.as_str());
            let jc = chars_of("json");
            crate::text::chars_eq(ec.as_slice(), jc.as_slice())
        },
        None => false,
    };
    if !is_json {
        return None;
    }
    let cs = chars_of(dir_stem);
    let mut last: usize = 0;
    let mut seen = false;
    let mut i: usize = 0;
    while i < cs.len()
        invariant
            i <= cs@.len(),
            cs@ == dir_stem@,
            seen ==> last < i && last_dash(cs@.take(i as int)) == last as int,
            !seen ==> last_dash(cs@.take(i as int)) == -1,
        decreases cs@.len() - i,
    {
        assert(cs@.take(i + 1).drop_last() == cs@.take(i as int));
        if cs[i] == '-' {
            last = i;
            seen = true;
        }
        i = i + 1;
    }
    assert(cs@.take(cs@.len() as int) == cs@);
    if seen {
        let name = underscore_chars(vstd::slice::slice_subrange(cs.as_slice(), 0, last));
        let hash = string_of(vstd::slice::slice_subrange(cs.as_slice(), last + 1, cs.len()));
        Some((name, hash))
    } else {
        Some((String::new(), string_of(cs.as_slice())))
    }
}

/// The files that may hold the compiled library for `libname`/`hash` under
/// the build profile directory `profile_dir`, in the order they are tried:
/// static archive, then two dynamic-library forms, then the Windows form.
pub open spec fn archive_candidates_of(profile_dir: Seq<char>, libname: Seq<char>, hash: Seq<char>) -> Seq<
    Seq<char>,
> {
    let lib_base = join_path(profile_dir, "deps/lib"@ + libname + "-"@ + hash);
    let dll_base = join_path(profile_dir, "deps/"@ + libname + "-"@ + hash);
    seq![lib_base + ".rlib"@, lib_base + ".so"@, lib_base + ".dylib"@, dll_base + ".dll"@]
}

fn with_suffix(base: &String, suffix: &str) -> (r: String)
    ensures
        r@ == base@ + suffix@,
{
    let mut r = base.clone();
    push_str_chars(&mut r, suffix);
    r
}

/// The paths at which the archive file of a fingerprint may stand.
pub fn archive_candidates(profile_dir: &str, libname: &str, hash: &str) -> (r: Vec<String>)
    ensures
        string_views(r@) == archive_candidates_of(profile_dir@, libname@, hash@),
{
    let mut lib_rel = String::new();
    push_str_chars(&mut lib_rel, "deps/lib");
    push_str_chars(&mut lib_rel, libname);
    push_str_chars(&mut lib_rel, "-");
    push_str_chars(&mut lib_rel, hash);
    let mut dll_rel = String::new();
    push_str_chars(&mut dll_rel, "deps/");
    push_str_chars(&mut dll_rel, libname);
    push_str_chars(&mut dll_rel, "-");
    push_str_chars(&mut dll_rel, hash);
    let lib_chars = chars_of(lib_rel.as_str());
    let dll_chars = chars_of(dll_rel.as_str());
    let lib_base = join_path_str(profile_dir, lib_chars.as_slice());
    let dll_base = join_path_str(profile_dir, dll_chars.as_slice());
    let mut r: Vec<String> = Vec::new();
    r.push(with_suffix(&lib_base, ".rlib"));
    r.push(with_suffix(&lib_base, ".so"));
    r.push(with_suffix(&lib_base, ".dylib"));
    r.push(with_suffix(&dll_base, ".dll"));
    assert(string_views(r@) =~= archive_candidates_of(profile_dir@, libname@, hash@));
    r
}

/// The index of the first `true` in `present`, or its length.
pub open spec fn first_present(present: Seq<bool>) -> int
    decreases present.len(),
{
    if present.len() == 0 {
        0
    } else if present[0] {
        0
    } else {
        1 + first_present(present.drop_first())
    }
}

/// The first candidate path whose file exists; `present[i]` tells whether
/// `candidates[i]` does.
pub fn pick_archive(candidates: &[String], present: &[bool]) -> (r: Option<String>)
    requires
        candidates@.len() == present@.len(),
    ensures
        first_present(present@) < present@.len() ==> opt_view(r) == Some(
            candidates@[first_present(present@)]@,
        ),
        first_present(present@) >= present@.len() ==> r is None,
{
    assert(present@.skip(0) == present@);
    let mut i: usize = 0;
    while i < present.len()
        invariant
            i <= present@.len(),
            candidates@.len() == present@.len(),
            first_present(present@) == i + first_present(present@.skip(i as int)),
        decreases present@.len() - i,
    {
        assert(present@.skip(i as int)[0] == present@[i as int]);
        assert(present@.skip(i as int).drop_first() == present@.skip(i + 1));
        if present[i] {
            return Some(candidates[i].clone());
        }
        i = i + 1;
    }
    assert(present@.skip(i as int).len() == 0);
    None
}

} // verus!
