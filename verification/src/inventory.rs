//! The repository inventory scanner and the name search.
//!
//! The filesystem walk itself happens outside the engine: a caller hands in
//! the list of directories below the project root, each as its path segments
//! together with a flag saying whether it directly contains a
//! version-control marker entry. On that list the scanner decides which
//! directories are repository roots, and the name search finds a directory
//! by its exact final segment.

use vstd::prelude::*;
use vstd::string::StringExecFns;
use crate::tokens::str_eq;
use crate::state::Settings;

verus! {

/// One directory below the scanned root: its full path, split into
/// segments, and whether it directly contains a version-control marker.
#[derive(Debug)]
pub struct Dir {
    pub path: Vec<String>,
    pub has_marker: bool,
}

/// The mathematical value of a [`Dir`].
pub struct DirView {
    pub path: Seq<Seq<char>>,
    pub has_marker: bool,
}

impl View for Dir {
    type V = DirView;

    open spec fn view(&self) -> DirView {
        DirView { path: self.path.deep_view(), has_marker: self.has_marker }
    }
}

/// The views of a directory list.
pub open spec fn dir_views(dirs: Seq<Dir>) -> Seq<DirView> {
    dirs.map_values(|d: Dir| d@)
}

/// Every directory in the list lies below the root: its path has at least
/// one segment.
pub open spec fn dirs_ok(dirs: Seq<DirView>) -> bool {
    forall|i: int| 0 <= i < dirs.len() ==> (#[trigger] dirs[i]).path.len() > 0
}

/// `a` is a strict ancestor path of `b`.
pub open spec fn strict_prefix(a: Seq<Seq<char>>, b: Seq<Seq<char>>) -> bool {
    a.len() < b.len() && a == b.take(a.len() as int)
}

/// A directory is a repository root iff it directly contains the marker and
/// no marked directory in the list lies strictly above it: the scan never
/// descends below a repository root, so nested repositories are invisible.
pub open spec fn is_repo_root(dirs: Seq<DirView>, d: DirView) -> bool {
    &&& d.has_marker
    &&& !exists|j: int|
        0 <= j < dirs.len() && (#[trigger] dirs[j]).has_marker && strict_prefix(
            dirs[j].path,
            d.path,
        )
}

/// The repository root paths among the first `i` directories, in list order.
pub open spec fn spec_repo_roots_upto(dirs: Seq<DirView>, i: int) -> Seq<Seq<Seq<char>>>
    decreases i,
{
    if i <= 0 {
        Seq::empty()
    } else if is_repo_root(dirs, dirs[i - 1]) {
        spec_repo_roots_upto(dirs, i - 1).push(dirs[i - 1].path)
    } else {
        spec_repo_roots_upto(dirs, i - 1)
    }
}

/// The repository root paths of a directory list, in list order.
pub open spec fn spec_repo_roots(dirs: Seq<DirView>) -> Seq<Seq<Seq<char>>> {
    spec_repo_roots_upto(dirs, dirs.len() as int)
}

/// Every returned root path is the path of a marked directory of the list
/// that no marked directory lies strictly above.
pub proof fn lemma_repo_roots_elem(dirs: Seq<DirView>, i: int, k: int)
    requires
        0 <= i <= dirs.len(),
        0 <= k < spec_repo_roots_upto(dirs, i).len(),
    ensures
        exists|j: int|
            0 <= j < i && is_repo_root(dirs, #[trigger] dirs[j]) && spec_repo_roots_upto(
                dirs,
                i,
            )[k] == dirs[j].path,
    decreases i,
{
    if i > 0 {
        if is_repo_root(dirs, dirs[i - 1]) && k == spec_repo_roots_upto(dirs, i - 1).len() {
            assert(0 <= i - 1 < i && is_repo_root(dirs, dirs[i - 1]) && spec_repo_roots_upto(
                dirs,
                i,
            )[k] == dirs[i - 1].path);
        } else {
            lemma_repo_roots_elem(dirs, i - 1, k);
        }
    }
}

/// The scanner never returns a path nested beneath another returned path.
pub proof fn lemma_repo_roots_unnested(dirs: Seq<DirView>, a: int, b: int)
    requires
        0 <= a < spec_repo_roots(dirs).len(),
        0 <= b < spec_repo_roots(dirs).len(),
    ensures
        !strict_prefix(spec_repo_roots(dirs)[a], spec_repo_roots(dirs)[b]),
{
    lemma_repo_roots_elem(dirs, dirs.len() as int, a);
    lemma_repo_roots_elem(dirs, dirs.len() as int, b);
}

/// Whether `a` is a strict ancestor path of `b`.
fn seg_strict_prefix(a: &Vec<String>, b: &Vec<String>) -> (r: bool)
    ensures
        r == strict_prefix(a.deep_view(), b.deep_view()),
{
    if a.len() >= b.len() {
        proof {
            assert(!strict_prefix(a.deep_view(), b.deep_view()));
        }
        return false;
    }
    let mut i: usize = 0;
    while i < a.len()
        invariant
            a@.len() < b@.len(),
            i <= a@.len(),
            forall|j: int| 0 <= j < i ==> a.deep_view()[j] == b.deep_view()[j],
        decreases a@.len() - i,
    {
        if !str_eq(a[i].as_str(), b[i].as_str()) {
            proof {
                assert(a.deep_view()[i as int] != b.deep_view().take(a.deep_view().len() as int)[i as int]);
            }
            return false;
        }
        i += 1;
    }
    proof {
        assert(a.deep_view() =~= b.deep_view().take(a.deep_view().len() as int));
    }
    true
}

/// Whether some marked directory of the list lies strictly above `p`.
fn has_marked_ancestor(dirs: &Vec<Dir>, p: &Vec<String>) -> (r: bool)
    ensures
        r == exists|j: int|
            0 <= j < dirs@.len() && (#[trigger] dir_views(dirs@)[j]).has_marker && strict_prefix(
                dir_views(dirs@)[j].path,
                p.deep_view(),
            ),
{
    let mut i: usize = 0;
    while i < dirs.len()
        invariant
            i <= dirs@.len(),
            forall|j: int|
                0 <= j < i ==> !((#[trigger] dir_views(dirs@)[j]).has_marker && strict_prefix(
                    dir_views(dirs@)[j].path,
                    p.deep_view(),
                )),
        decreases dirs@.len() - i,
    {
        if dirs[i].has_marker && seg_strict_prefix(&dirs[i].path, p) {
            proof {
                assert((#[trigger] dir_views(dirs@)[i as int]).has_marker && strict_prefix(
                    dir_views(dirs@)[i as int].path,
                    p.deep_view(),
                ));
            }
            return true;
        }
        i += 1;
    }
    false
}

/// Copies a segment path.
fn copy_segments(v: &Vec<String>) -> (r: Vec<String>)
    ensures
        r.deep_view() == v.deep_view(),
{
    let mut r: Vec<String> = Vec::new();
    let mut i: usize = 0;
    while i < v.len()
        invariant
            i <= v@.len(),
            r@.len() == i,
            forall|j: int| 0 <= j < i ==> r.deep_view()[j] == v.deep_view()[j],
        decreases v@.len() - i,
    {
        r.push(v[i].clone());
        i += 1;
    }
    proof {
        assert(r.deep_view() =~= v.deep_view());
    }
    r
}

/// Walks the directory list and produces the repository root paths: the
/// directories that directly contain the version-control marker and have no
/// marked directory strictly above them, in list order.
pub fn find_git_repos(dirs: &Vec<Dir>) -> (repos: Vec<Vec<String>>)
    ensures
        repos.deep_view() == spec_repo_roots(dir_views(dirs@)),
{
    let mut repos: Vec<Vec<String>> = Vec::new();
    let mut i: usize = 0;
    proof {
        assert(repos.deep_view() =~= spec_repo_roots_upto(dir_views(dirs@), 0));
    }
    while i < dirs.len()
        invariant
            i <= dirs@.len(),
            repos.deep_view() == spec_repo_roots_upto(dir_views(dirs@), i as int),
        decreases dirs@.len() - i,
    {
        let ghost pre = repos.deep_view();
        if dirs[i].has_marker && !has_marked_ancestor(dirs, &dirs[i].path) {
            proof {
                assert(is_repo_root(dir_views(dirs@), dir_views(dirs@)[i as int]));
            }
            let p = copy_segments(&dirs[i].path);
            repos.push(p);
            proof {
                assert(repos.deep_view() =~= pre.push(dir_views(dirs@)[i as int].path));
            }
        } else {
            proof {
                assert(!is_repo_root(dir_views(dirs@), dir_views(dirs@)[i as int]));
            }
        }
        i += 1;
    }
    repos
}

/// Joins path segments with `/`.
pub open spec fn spec_join(path: Seq<Seq<char>>) -> Seq<char>
    decreases path.len(),
{
    if path.len() == 0 {
        Seq::empty()
    } else if path.len() == 1 {
        path[0]
    } else {
        spec_join(path.drop_last()) + seq!['/'] + path.last()
    }
}

/// Joins path segments with `/`.
pub fn join_path(path: &Vec<String>) -> (r: String)
    ensures
        r@ == spec_join(path.deep_view()),
{
    let mut r = String::new();
    let mut i: usize = 0;
    proof {
        reveal_strlit("/");
        assert(r@ =~= spec_join(path.deep_view().take(0)));
    }
    while i < path.len()
        invariant
            i <= path@.len(),
            r@ == spec_join(path.deep_view().take(i as int)),
        decreases path@.len() - i,
    {
        if i > 0 {
            r.append("/");
        }
        r.append(path[i].as_str());
        proof {
            reveal_strlit("/");
            let dv = path.deep_view();
            assert(dv.take(i + 1).drop_last() =~= dv.take(i as int));
            assert(dv.take(i + 1).last() == dv[i as int]);
            if i == 0 {
                assert(r@ =~= spec_join(dv.take(1)));
            } else {
                assert("/"@ =~= seq!['/']);
                assert(r@ =~= spec_join(dv.take(i + 1)));
            }
        }
        i += 1;
    }
    proof {
        assert(path.deep_view().take(path.deep_view().len() as int) =~= path.deep_view());
    }
    r
}

/// The position just past the last occurrence of `c` in `s`: 0 when `c`
/// does not occur.
pub open spec fn after_last(s: Seq<char>, c: char) -> int
    decreases s.len(),
{
    if s.len() == 0 {
        0
    } else if s.last() == c {
        s.len() as int
    } else {
        after_last(s.drop_last(), c)
    }
}

proof fn lemma_after_last_bounds(s: Seq<char>, c: char)
    ensures
        0 <= after_last(s, c) <= s.len(),
    decreases s.len(),
{
    if s.len() > 0 && s.last() != c {
        lemma_after_last_bounds(s.drop_last(), c);
    }
}

/// The position just past the last occurrence of `c`, computed by scanning
/// from the end.
fn scan_after_last(s: &str, c: char) -> (r: usize)
    ensures
        r == after_last(s@, c),
{
    let n = s.unicode_len();
    let mut i: usize = n;
    proof {
        assert(s@.take(n as int) =~= s@);
    }
    while i > 0
        invariant
            n == s@.len(),
            i <= n,
            after_last(s@, c) == after_last(s@.take(i as int), c),
        decreases i,
    {
        if s.get_char(i - 1) == c {
            proof {
                assert(s@.take(i as int).last() == s@[i - 1]);
            }
            return i;
        }
        proof {
            assert(s@.take(i as int).drop_last() =~= s@.take(i - 1));
            assert(s@.take(i as int).last() == s@[i - 1]);
        }
        i -= 1;
    }
    proof {
        assert(s@.take(0) =~= Seq::<char>::empty());
    }
    0
}

/// The final `/`-separated segment of `s`.
pub open spec fn spec_base_name(s: Seq<char>) -> Seq<char> {
    s.skip(after_last(s, '/'))
}

/// `b` without an extension: everything before the last `.`, unless the
/// `.` is the first character or there is none.
pub open spec fn spec_strip_ext(b: Seq<char>) -> Seq<char> {
    if after_last(b, '.') > 1 {
        b.take(after_last(b, '.') - 1)
    } else {
        b
    }
}

/// The repository name a clone target is named after: the final
/// `/`-separated segment of the URL, without its extension; `unknown-repo`
/// when that segment is empty.
pub open spec fn spec_repo_name(s: Seq<char>) -> Seq<char> {
    if spec_strip_ext(spec_base_name(s)).len() == 0 {
        "unknown-repo"@
    } else {
        spec_strip_ext(spec_base_name(s))
    }
}

/// Extracts from a clone URL the name of the directory the repository is
/// cloned into.
pub fn extract_repo_name(clone_url: &str) -> (r: String)
    ensures
        r@ == spec_repo_name(clone_url@),
{
    let n = clone_url.unicode_len();
    let bstart = scan_after_last(clone_url, '/');
    proof {
        lemma_after_last_bounds(clone_url@, '/');
    }
    let base = clone_url.substring_char(bstart, n);
    let blen = base.unicode_len();
    let dot = scan_after_last(base, '.');
    proof {
        lemma_after_last_bounds(base@, '.');
    }
    let stem = if dot > 1 {
        base.substring_char(0, dot - 1)
    } else {
        base
    };
    proof {
        assert(base@ =~= clone_url@.skip(bstart as int));
    }
    if stem.is_empty() {
        "unknown-repo".to_owned()
    } else {
        stem.to_owned()
    }
}

/// One known repository: its name (the final path segment), its path, and
/// the remote URL synthesized from a template at scan time, not verified.
#[derive(Debug)]
pub struct Repository {
    pub name: String,
    pub path: String,
    pub clone_url: String,
}

/// The mathematical value of a [`Repository`].
pub struct RepoView {
    pub name: Seq<char>,
    pub path: Seq<char>,
    pub clone_url: Seq<char>,
}

impl View for Repository {
    type V = RepoView;

    open spec fn view(&self) -> RepoView {
        RepoView { name: self.name@, path: self.path@, clone_url: self.clone_url@ }
    }
}

/// The views of a repository list.
pub open spec fn repo_views(rs: Seq<Repository>) -> Seq<RepoView> {
    rs.map_values(|r: Repository| r@)
}

/// The remote URL synthesized for a repository of `user` named `name`.
pub open spec fn spec_clone_url(user: Seq<char>, name: Seq<char>) -> Seq<char> {
    "https://github.com/"@ + user + "/"@ + name + ".git"@
}

/// Synthesizes the remote URL for a repository of `user` named `name`.
pub fn make_clone_url(user: &str, name: &str) -> (r: String)
    ensures
        r@ == spec_clone_url(user@, name@),
{
    let mut r = String::from_str("https://github.com/");
    r.append(user);
    r.append("/");
    r.append(name);
    r.append(".git");
    proof {
        assert(r@ =~= spec_clone_url(user@, name@));
    }
    r
}

/// The repository record a root path produces for `user`.
pub open spec fn spec_repo_of(segs: Seq<Seq<char>>, user: Seq<char>) -> RepoView {
    RepoView {
        name: segs.last(),
        path: spec_join(segs),
        clone_url: spec_clone_url(user, segs.last()),
    }
}

/// The inventory a directory list produces for `user`: one record per
/// repository root, in scan order.
pub open spec fn spec_inventory(dirs: Seq<DirView>, user: Seq<char>) -> Seq<RepoView> {
    spec_repo_roots(dirs).map_values(|p: Seq<Seq<char>>| spec_repo_of(p, user))
}

/// Builds the fresh inventory from a directory list: one record per
/// repository root, created wholesale on every refresh, never patched.
pub fn get_all_repositories(dirs: &Vec<Dir>, settings: &Settings) -> (repos: Vec<Repository>)
    requires
        dirs_ok(dir_views(dirs@)),
    ensures
        repo_views(repos@) == spec_inventory(dir_views(dirs@), settings@.username),
{
    let roots = find_git_repos(dirs);
    let ghost target = spec_inventory(dir_views(dirs@), settings@.username);
    let mut repos: Vec<Repository> = Vec::new();
    let mut i: usize = 0;
    proof {
        assert(repo_views(repos@) =~= target.take(0));
    }
    while i < roots.len()
        invariant
            i <= roots@.len(),
            roots.deep_view() == spec_repo_roots(dir_views(dirs@)),
            dirs_ok(dir_views(dirs@)),
            target == spec_inventory(dir_views(dirs@), settings@.username),
            repo_views(repos@) == target.take(i as int),
        decreases roots@.len() - i,
    {
        proof {
            lemma_repo_roots_elem(dir_views(dirs@), dir_views(dirs@).len() as int, i as int);
            assert(roots.deep_view()[i as int].len() > 0);
            assert(roots@[i as int].deep_view() == roots.deep_view()[i as int]);
        }
        let segs = &roots[i];
        let name = segs[segs.len() - 1].clone();
        let path = join_path(segs);
        let clone_url = make_clone_url(settings.username.as_str(), name.as_str());
        let ghost pre = repo_views(repos@);
        repos.push(Repository { name, path, clone_url });
        proof {
            assert(repo_views(repos@) =~= pre.push(spec_repo_of(
                roots.deep_view()[i as int],
                settings@.username,
            )));
            assert(target.take(i + 1) =~= target.take(i as int).push(target[i as int]));
        }
        i += 1;
    }
    proof {
        assert(target.take(roots.deep_view().len() as int) =~= target);
    }
    repos
}

/// Whether a directory's final path segment is exactly `name`.
pub open spec fn seg_match(d: DirView, name: Seq<char>) -> bool {
    d.path.len() > 0 && d.path.last() == name
}

/// How many of the first `i` directories have final segment `name`.
pub open spec fn count_matches_upto(dirs: Seq<DirView>, name: Seq<char>, i: int) -> int
    decreases i,
{
    if i <= 0 {
        0
    } else if seg_match(dirs[i - 1], name) {
        count_matches_upto(dirs, name, i - 1) + 1
    } else {
        count_matches_upto(dirs, name, i - 1)
    }
}

/// How many directories of the list have final segment `name`.
pub open spec fn count_matches(dirs: Seq<DirView>, name: Seq<char>) -> int {
    count_matches_upto(dirs, name, dirs.len() as int)
}

pub proof fn lemma_count_le(dirs: Seq<DirView>, name: Seq<char>, i: int)
    requires
        i <= dirs.len(),
    ensures
        0 <= count_matches_upto(dirs, name, i) <= if i <= 0 {
            0int
        } else {
            i
        },
    decreases i,
{
    if i > 0 {
        lemma_count_le(dirs, name, i - 1);
    }
}

/// Counting matches over a longer prefix never loses any.
pub proof fn lemma_count_monotone(dirs: Seq<DirView>, name: Seq<char>, i: int, k: int)
    requires
        0 <= i <= k <= dirs.len(),
    ensures
        count_matches_upto(dirs, name, i) <= count_matches_upto(dirs, name, k),
    decreases k,
{
    if i < k {
        lemma_count_monotone(dirs, name, i, k - 1);
    }
}

/// Two distinct matching directories make the name ambiguous.
pub proof fn lemma_two_matches(dirs: Seq<DirView>, name: Seq<char>, j1: int, j2: int)
    requires
        0 <= j1 < j2 < dirs.len(),
        seg_match(dirs[j1], name),
        seg_match(dirs[j2], name),
    ensures
        count_matches(dirs, name) >= 2,
{
    lemma_count_le(dirs, name, j1);
    lemma_count_monotone(dirs, name, j1 + 1, j2);
    lemma_count_monotone(dirs, name, j2 + 1, dirs.len() as int);
}

/// The two failing outcomes of the name search: the name occurs nowhere, or
/// in several places and is ambiguous.
#[derive(Debug, PartialEq, Eq)]
pub enum SearchError {
    NotFound,
    MultipleFound,
}

/// Finds the one directory of the list whose final path segment is exactly
/// `name`, independent of whether it is a repository. Yields its path when
/// the name is unambiguous; ambiguity is never resolved by picking a match.
pub fn find_file_in_path(dirs: &Vec<Dir>, name: &str) -> (r: Result<String, SearchError>)
    ensures
        match r {
            Ok(p) => count_matches(dir_views(dirs@), name@) == 1 && exists|j: int|
                0 <= j < dirs@.len() && seg_match(#[trigger] dir_views(dirs@)[j], name@) && p@
                    == spec_join(dir_views(dirs@)[j].path),
            Err(SearchError::NotFound) => count_matches(dir_views(dirs@), name@) == 0,
            Err(SearchError::MultipleFound) => count_matches(dir_views(dirs@), name@) >= 2,
        },
{
    let ghost dv = dir_views(dirs@);
    let mut i: usize = 0;
    let mut count: usize = 0;
    let mut found: Option<usize> = None;
    while i < dirs.len()
        invariant
            i <= dirs@.len(),
            dv == dir_views(dirs@),
            count == count_matches_upto(dv, name@, i as int),
            count <= i,
            match found {
                Some(j) => j < i && seg_match(dv[j as int], name@),
                None => count == 0,
            },
        decreases dirs@.len() - i,
    {
        let d = &dirs[i];
        let is_match = d.path.len() > 0 && str_eq(d.path[d.path.len() - 1].as_str(), name);
        proof {
            assert(seg_match(dv[i as int], name@) == is_match);
        }
        if is_match {
            count += 1;
            if found.is_none() {
                found = Some(i);
            }
        }
        i += 1;
    }
    if count == 0 {
        Err(SearchError::NotFound)
    } else if count == 1 {
        match found {
            Some(j) => {
                let p = join_path(&dirs[j].path);
                proof {
                    assert(seg_match(dir_views(dirs@)[j as int], name@) && p@ == spec_join(
                        dir_views(dirs@)[j as int].path,
                    ));
                }
                Ok(p)
            },
            None => Err(SearchError::NotFound),
        }
    } else {
        Err(SearchError::MultipleFound)
    }
}

} // verus!
