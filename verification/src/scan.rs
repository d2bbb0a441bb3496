//! The depth-first scan of a directory tree for repositories.
//!
//! The scan walks a `DirNode` tree, skips metadata and dependency-cache
//! directories, classifies every repository it finds against an old-domain
//! substring, and collects progress events along the way. The tree's root is
//! never classified as a repository; a repository is a leaf of the walk.

use vstd::prelude::*;
use crate::strings::{contains_substr, contains_substring, replace_first, with_first_replaced};
use crate::tree::{
    DirNode, is_skipped_dir_name, kids_count, lemma_node_count_pos, node_count, skip_dir_name,
};

verus! {

/// One discovered repository: where it lies, the origin URL it had, the URL
/// it would be rewritten to (empty when unmatched), and whether it matched.
#[derive(Debug, Clone, PartialEq, Eq)]
pub struct RepoInfo {
    pub path: String,
    pub old_url: String,
    pub new_url: String,
    pub matched: bool,
}

/// Mathematical counterpart of `RepoInfo`.
#[verifier::ext_equal]
pub ghost struct RepoRec {
    pub path: Seq<char>,
    pub old_url: Seq<char>,
    pub new_url: Seq<char>,
    pub matched: bool,
}

impl DeepView for RepoInfo {
    type V = RepoRec;

    open spec fn deep_view(&self) -> RepoRec {
        RepoRec {
            path: self.path@,
            old_url: self.old_url@,
            new_url: self.new_url@,
            matched: self.matched,
        }
    }
}

/// The aggregate a scan returns: how many directories were visited, how many
/// repositories were found, and the repositories in discovery order.
#[derive(Debug)]
pub struct ScanResult {
    pub total_dirs: i32,
    pub repo_count: i32,
    pub repos: Vec<RepoInfo>,
}

/// One progress notification pushed while a scan runs.
#[derive(Debug, Clone, PartialEq, Eq)]
pub enum ScanEvent {
    /// The scan began at this root directory.
    Started(String),
    /// A subdirectory is about to be entered.
    Visiting(String),
    /// A repository with a readable origin URL was found here.
    RepoFound(String),
    /// The repository's origin URL contains the old domain.
    Matched(String),
    /// The repository's origin URL does not contain the old domain.
    Unmatched(String),
    /// The scan finished with these directory and repository counts.
    Completed(i32, i32),
}

/// Mathematical counterpart of `ScanEvent`.
#[verifier::ext_equal]
pub ghost enum EventRec {
    Started(Seq<char>),
    Visiting(Seq<char>),
    RepoFound(Seq<char>),
    Matched(Seq<char>),
    Unmatched(Seq<char>),
    Completed(int, int),
}

impl DeepView for ScanEvent {
    type V = EventRec;

    open spec fn deep_view(&self) -> EventRec {
        match self {
            ScanEvent::Started(p) => EventRec::Started(p@),
            ScanEvent::Visiting(p) => EventRec::Visiting(p@),
            ScanEvent::RepoFound(p) => EventRec::RepoFound(p@),
            ScanEvent::Matched(p) => EventRec::Matched(p@),
            ScanEvent::Unmatched(p) => EventRec::Unmatched(p@),
            ScanEvent::Completed(t, c) => EventRec::Completed(*t as int, *c as int),
        }
    }
}

/// What the requested scan root looked like on disk.
pub enum ScanRoot {
    /// Nothing exists at the requested path.
    Missing,
    /// Something exists there, but it is not a directory.
    NotDirectory,
    /// The root directory and everything observed beneath it.
    Tree(DirNode),
}

/// What scanning a subtree contributes: visited directories, discovered
/// repositories, and progress events.
#[verifier::ext_equal]
pub ghost struct ScanRec {
    pub total: int,
    pub repos: Seq<RepoRec>,
    pub events: Seq<EventRec>,
}

impl ScanRec {
    pub open spec fn empty() -> ScanRec {
        ScanRec { total: 0, repos: Seq::empty(), events: Seq::empty() }
    }

    /// This contribution followed by `other`.
    pub open spec fn app(self, other: ScanRec) -> ScanRec {
        ScanRec {
            total: self.total + other.total,
            repos: self.repos + other.repos,
            events: self.events + other.events,
        }
    }
}

/// The record kept for a repository at `path` whose origin URL is `url`:
/// matched with the first occurrence of `old_domain` replaced by
/// `new_domain`, or unmatched with an empty new URL.
pub open spec fn repo_rec(
    path: Seq<char>,
    url: Seq<char>,
    old_domain: Seq<char>,
    new_domain: Seq<char>,
) -> RepoRec {
    if contains_substring(url, old_domain) {
        RepoRec {
            path: path,
            old_url: url,
            new_url: with_first_replaced(url, old_domain, new_domain),
            matched: true,
        }
    } else {
        RepoRec { path: path, old_url: url, new_url: Seq::empty(), matched: false }
    }
}

/// The events emitted for a repository at `path` whose origin URL is `url`.
pub open spec fn repo_events(path: Seq<char>, url: Seq<char>, old_domain: Seq<char>) -> Seq<
    EventRec,
> {
    if contains_substring(url, old_domain) {
        seq![EventRec::RepoFound(path), EventRec::Matched(path)]
    } else {
        seq![EventRec::RepoFound(path), EventRec::Unmatched(path)]
    }
}

/// What scanning directory `n` contributes. A non-root directory holding the
/// metadata subdirectory is a repository: it is recorded when its origin URL
/// is readable, and its children are never walked. Any other directory
/// contributes whatever walking its children yields.
pub open spec fn scan_dir(
    n: DirNode,
    old_domain: Seq<char>,
    new_domain: Seq<char>,
    is_root: bool,
) -> ScanRec
    decreases n, 1int,
{
    if !is_root && n.has_metadata_dir {
        match n.origin_url {
            Some(u) => ScanRec {
                total: 0,
                repos: seq![repo_rec(n.path@, u@, old_domain, new_domain)],
                events: repo_events(n.path@, u@, old_domain),
            },
            None => ScanRec::empty(),
        }
    } else {
        scan_kids(n.children@, old_domain, new_domain)
    }
}

/// What walking a list of child directories contributes, in order.
pub open spec fn scan_kids(cs: Seq<DirNode>, old_domain: Seq<char>, new_domain: Seq<char>) -> ScanRec
    decreases cs, 0int,
{
    if cs.len() == 0 {
        ScanRec::empty()
    } else {
        scan_child(cs[0], old_domain, new_domain).app(
            scan_kids(cs.drop_first(), old_domain, new_domain),
        )
    }
}

/// What one child directory contributes: nothing when its name is skipped;
/// otherwise it is counted, announced, and scanned as a non-root directory.
pub open spec fn scan_child(c: DirNode, old_domain: Seq<char>, new_domain: Seq<char>) -> ScanRec
    decreases c, 2int,
{
    if skip_dir_name(c.name@) {
        ScanRec::empty()
    } else {
        let sub = scan_dir(c, old_domain, new_domain, false);
        ScanRec {
            total: 1 + sub.total,
            repos: sub.repos,
            events: seq![EventRec::Visiting(c.path@)] + sub.events,
        }
    }
}

/// The directory count never exceeds the tree size, and at most one
/// repository is recorded per counted directory (plus the node itself).
pub proof fn lemma_scan_dir_bounds(n: DirNode, o: Seq<char>, w: Seq<char>, is_root: bool)
    ensures
        0 <= scan_dir(n, o, w, is_root).total <= node_count(n) - 1,
        scan_dir(n, o, w, is_root).repos.len() <= scan_dir(n, o, w, is_root).total + 1,
    decreases n, 1int,
{
    lemma_node_count_pos(n);
    if !(!is_root && n.has_metadata_dir) {
        lemma_scan_kids_bounds(n.children@, o, w);
    }
}

pub proof fn lemma_scan_kids_bounds(cs: Seq<DirNode>, o: Seq<char>, w: Seq<char>)
    ensures
        0 <= scan_kids(cs, o, w).total <= kids_count(cs),
        scan_kids(cs, o, w).repos.len() <= scan_kids(cs, o, w).total,
    decreases cs, 0int,
{
    if cs.len() > 0 {
        lemma_scan_child_bounds(cs[0], o, w);
        lemma_scan_kids_bounds(cs.drop_first(), o, w);
    }
}

pub proof fn lemma_scan_child_bounds(c: DirNode, o: Seq<char>, w: Seq<char>)
    ensures
        0 <= scan_child(c, o, w).total <= node_count(c),
        scan_child(c, o, w).repos.len() <= scan_child(c, o, w).total,
    decreases c, 2int,
{
    lemma_node_count_pos(c);
    if !skip_dir_name(c.name@) {
        lemma_scan_dir_bounds(c, o, w, false);
    }
}

/// Builds the record for one repository: when `url` contains `old_domain`,
/// it matches and the new URL replaces only the first occurrence; otherwise
/// it does not match and the new URL is empty.
pub fn classify_repo(path: &String, url: &String, old_domain: &str, new_domain: &str) -> (r:
    RepoInfo)
    ensures
        r.deep_view() == repo_rec(path@, url@, old_domain@, new_domain@),
{
    if contains_substr(url.as_str(), old_domain) {
        let rewritten = replace_first(url.as_str(), old_domain, new_domain);
        RepoInfo { path: path.clone(), old_url: url.clone(), new_url: rewritten, matched: true }
    } else {
        RepoInfo { path: path.clone(), old_url: url.clone(), new_url: String::new(), matched: false }
    }
}

/// No directory that the walk can reach below `n` is a repository.
pub open spec fn no_repos_below(n: DirNode) -> bool
    decreases n,
{
    forall|i: int|
        #![trigger n.children@[i]]
        0 <= i < n.children@.len() && !skip_dir_name(n.children@[i].name@)
            ==> !n.children@[i].has_metadata_dir && no_repos_below(n.children@[i])
}

/// Every non-skipped directory strictly below `n`.
pub open spec fn subdir_count(n: DirNode) -> int
    decreases n, 1int,
{
    kids_subdir_count(n.children@)
}

/// Every non-skipped directory in or below the nodes of `cs`.
pub open spec fn kids_subdir_count(cs: Seq<DirNode>) -> int
    decreases cs, 0int,
{
    if cs.len() == 0 {
        0
    } else {
        (if skip_dir_name(cs[0].name@) {
            0
        } else {
            1 + subdir_count(cs[0])
        }) + kids_subdir_count(cs.drop_first())
    }
}

/// Scanning a tree none of whose reachable subdirectories is a repository
/// finds no repositories, and counts exactly the non-skipped
/// subdirectories encountered.
pub proof fn lemma_scan_without_repos(n: DirNode, o: Seq<char>, w: Seq<char>)
    requires
        no_repos_below(n),
    ensures
        scan_dir(n, o, w, true).repos == Seq::<RepoRec>::empty(),
        scan_dir(n, o, w, true).total == subdir_count(n),
{
    lemma_scan_kids_without_repos(n.children@, o, w);
}

proof fn lemma_scan_kids_without_repos(cs: Seq<DirNode>, o: Seq<char>, w: Seq<char>)
    requires
        forall|i: int|
            #![trigger cs[i]]
            0 <= i < cs.len() && !skip_dir_name(cs[i].name@) ==> !cs[i].has_metadata_dir
                && no_repos_below(cs[i]),
    ensures
        scan_kids(cs, o, w).repos == Seq::<RepoRec>::empty(),
        scan_kids(cs, o, w).total == kids_subdir_count(cs),
    decreases cs, 0int,
{
    if cs.len() > 0 {
        if !skip_dir_name(cs[0].name@) {
            lemma_scan_dir_without_repos(cs[0], o, w);
        }
        assert forall|i: int|
            #![trigger cs.drop_first()[i]]
            0 <= i < cs.drop_first().len() && !skip_dir_name(cs.drop_first()[i].name@)
                implies !cs.drop_first()[i].has_metadata_dir && no_repos_below(
            cs.drop_first()[i],
        ) by {
            assert(cs.drop_first()[i] == cs[i + 1]);
        }
        lemma_scan_kids_without_repos(cs.drop_first(), o, w);
        assert(scan_kids(cs.drop_first(), o, w).repos == Seq::<RepoRec>::empty());
        assert(scan_child(cs[0], o, w).repos == Seq::<RepoRec>::empty());
        assert(scan_kids(cs, o, w) == scan_child(cs[0], o, w).app(
            scan_kids(cs.drop_first(), o, w),
        ));
        assert(scan_kids(cs, o, w).repos =~= Seq::<RepoRec>::empty());
        assert(scan_kids(cs, o, w).total == kids_subdir_count(cs));
    }
}

proof fn lemma_scan_dir_without_repos(n: DirNode, o: Seq<char>, w: Seq<char>)
    requires
        !n.has_metadata_dir,
        no_repos_below(n),
    ensures
        scan_dir(n, o, w, false).repos == Seq::<RepoRec>::empty(),
        scan_dir(n, o, w, false).total == subdir_count(n),
    decreases n, 1int,
{
    lemma_scan_kids_without_repos(n.children@, o, w);
}

/// Classification stops the walk at a repository: what a non-root
/// repository directory contributes never depends on its children, so they
/// are neither scanned nor counted.
pub proof fn lemma_repo_children_ignored(n1: DirNode, n2: DirNode, o: Seq<char>, w: Seq<char>)
    requires
        n1.has_metadata_dir,
        n2.has_metadata_dir,
        n1.path == n2.path,
        n1.origin_url == n2.origin_url,
    ensures
        scan_dir(n1, o, w, false) == scan_dir(n2, o, w, false),
{
    assert(scan_dir(n1, o, w, false) =~~= scan_dir(n2, o, w, false));
}

/// Whether a root observation is small enough for the result's counters.
pub open spec fn scan_root_fits(root: ScanRoot) -> bool {
    match root {
        ScanRoot::Tree(t) => node_count(t) <= i32::MAX as int,
        _ => true,
    }
}

/// The full outcome owed for scanning the tree rooted at `t`: the counts and
/// repositories of the walk, framed by a start and a completion event.
pub open spec fn scan_output_ok(
    t: DirNode,
    old_domain: Seq<char>,
    new_domain: Seq<char>,
    res: ScanResult,
    ev: Seq<EventRec>,
) -> bool {
    let rec = scan_dir(t, old_domain, new_domain, true);
    &&& res.total_dirs == rec.total
    &&& res.repo_count == rec.repos.len()
    &&& res.repo_count == res.repos@.len()
    &&& res.repos.deep_view() == rec.repos
    &&& ev == seq![EventRec::Started(t.path@)] + rec.events + seq![
        EventRec::Completed(rec.total, rec.repos.len() as int),
    ]
}

/// Scans a directory tree for repositories.
///
/// Fails exactly when the root is missing or not a directory. Otherwise it
/// returns the aggregate result together with the progress events of the
/// walk: the root's children are walked depth-first in order, skipped names
/// are neither counted nor entered, every repository with a readable origin
/// URL is recorded (matched or unmatched), and the root itself is never
/// classified as a repository.
pub fn scan_repositories(root: &ScanRoot, old_domain: &str, new_domain: &str) -> (r: Result<
    (ScanResult, Vec<ScanEvent>),
    String,
>)
    requires
        scan_root_fits(*root),
    ensures
        match *root {
            ScanRoot::Missing => r matches Err(e) && e@ == "work directory does not exist"@,
            ScanRoot::NotDirectory => r matches Err(e) && e@ == "the given path is not a directory"@,
            ScanRoot::Tree(t) => r matches Ok(p) && scan_output_ok(
                t,
                old_domain@,
                new_domain@,
                p.0,
                p.1.deep_view(),
            ),
        },
{
    match root {
        ScanRoot::Missing => Err("work directory does not exist".to_owned()),
        ScanRoot::NotDirectory => Err("the given path is not a directory".to_owned()),
        ScanRoot::Tree(t) => {
            let ghost rec = scan_dir(*t, old_domain@, new_domain@, true);
            proof {
                lemma_scan_dir_bounds(*t, old_domain@, new_domain@, true);
            }
            let mut total: usize = 0;
            let mut repos: Vec<RepoInfo> = Vec::new();
            let mut events: Vec<ScanEvent> = Vec::new();
            events.push(ScanEvent::Started(t.path.clone()));
            let ghost edv0 = events.deep_view();
            proof {
                assert(edv0 =~= seq![EventRec::Started(t.path@)]);
                assert(repos.deep_view() =~= Seq::<RepoRec>::empty());
            }
            scan_dir_into(t, old_domain, new_domain, true, &mut total, &mut repos, &mut events);
            let total_dirs: i32 = total as i32;
            let repo_count: i32 = repos.len() as i32;
            events.push(ScanEvent::Completed(total_dirs, repo_count));
            proof {
                assert(repos.deep_view() =~= Seq::<RepoRec>::empty() + rec.repos);
                assert(repos.deep_view() =~= rec.repos);
                assert(events.deep_view() =~= (edv0 + rec.events).push(
                    EventRec::Completed(rec.total, rec.repos.len() as int),
                ));
                assert(events.deep_view() =~= seq![EventRec::Started(t.path@)] + rec.events + seq![
                    EventRec::Completed(rec.total, rec.repos.len() as int),
                ]);
            }
            Ok((ScanResult { total_dirs, repo_count, repos }, events))
        },
    }
}

fn scan_dir_into(
    n: &DirNode,
    old_domain: &str,
    new_domain: &str,
    is_root: bool,
    total: &mut usize,
    repos: &mut Vec<RepoInfo>,
    events: &mut Vec<ScanEvent>,
)
    requires
        *old(total) + scan_dir(*n, old_domain@, new_domain@, is_root).total <= usize::MAX,
    ensures
        *final(total) == *old(total) + scan_dir(*n, old_domain@, new_domain@, is_root).total,
        final(repos).deep_view() == old(repos).deep_view() + scan_dir(
            *n,
            old_domain@,
            new_domain@,
            is_root,
        ).repos,
        final(events).deep_view() == old(events).deep_view() + scan_dir(
            *n,
            old_domain@,
            new_domain@,
            is_root,
        ).events,
    decreases *n, 1int, 0int,
{
    let ghost rec = scan_dir(*n, old_domain@, new_domain@, is_root);
    if !is_root && n.has_metadata_dir {
        match &n.origin_url {
            Some(u) => {
                let info = classify_repo(&n.path, u, old_domain, new_domain);
                let matched = info.matched;
                let ghost dv0 = events.deep_view();
                events.push(ScanEvent::RepoFound(n.path.clone()));
                proof {
                    assert(events.deep_view() =~= dv0.push(EventRec::RepoFound(n.path@)));
                }
                let ghost dv1 = events.deep_view();
                if matched {
                    events.push(ScanEvent::Matched(n.path.clone()));
                    proof {
                        assert(events.deep_view() =~= dv1.push(EventRec::Matched(n.path@)));
                    }
                } else {
                    events.push(ScanEvent::Unmatched(n.path.clone()));
                    proof {
                        assert(events.deep_view() =~= dv1.push(EventRec::Unmatched(n.path@)));
                    }
                }
                let ghost rdv0 = repos.deep_view();
                repos.push(info);
                proof {
                    assert(repos.deep_view() =~= rdv0.push(
                        repo_rec(n.path@, u@, old_domain@, new_domain@),
                    ));
                    assert(matched == contains_substring(u@, old_domain@));
                    assert(repos.deep_view() =~= rdv0 + rec.repos);
                    assert(events.deep_view() =~= dv0 + rec.events);
                }
            },
            None => {
                proof {
                    assert(repos.deep_view() =~= repos.deep_view() + rec.repos);
                    assert(events.deep_view() =~= events.deep_view() + rec.events);
                }
            },
        }
    } else {
        proof {
            assert(n.children@.skip(0) =~= n.children@);
        }
        scan_kids_into(&n.children, 0, old_domain, new_domain, total, repos, events);
    }
}

fn scan_kids_into(
    cs: &Vec<DirNode>,
    i: usize,
    old_domain: &str,
    new_domain: &str,
    total: &mut usize,
    repos: &mut Vec<RepoInfo>,
    events: &mut Vec<ScanEvent>,
)
    requires
        i <= cs@.len(),
        *old(total) + scan_kids(cs@.skip(i as int), old_domain@, new_domain@).total <= usize::MAX,
    ensures
        *final(total) == *old(total) + scan_kids(
            cs@.skip(i as int),
            old_domain@,
            new_domain@,
        ).total,
        final(repos).deep_view() == old(repos).deep_view() + scan_kids(
            cs@.skip(i as int),
            old_domain@,
            new_domain@,
        ).repos,
        final(events).deep_view() == old(events).deep_view() + scan_kids(
            cs@.skip(i as int),
            old_domain@,
            new_domain@,
        ).events,
    decreases cs@, 0int, cs@.len() - i,
{
    let ghost o = old_domain@;
    let ghost w = new_domain@;
    let ghost rest = cs@.skip(i as int);
    if i == cs.len() {
        proof {
            assert(rest =~= Seq::<DirNode>::empty());
            assert(repos.deep_view() =~= repos.deep_view() + scan_kids(rest, o, w).repos);
            assert(events.deep_view() =~= events.deep_view() + scan_kids(rest, o, w).events);
        }
        return ;
    }
    proof {
        assert(rest[0] == cs@[i as int]);
        assert(rest.drop_first() =~= cs@.skip(i as int + 1));
        assert(scan_kids(rest, o, w) == scan_child(cs@[i as int], o, w).app(
            scan_kids(cs@.skip(i as int + 1), o, w),
        ));
    }
    let ghost child_rec = scan_child(cs@[i as int], o, w);
    let ghost rest_rec = scan_kids(cs@.skip(i as int + 1), o, w);
    let child = &cs[i];
    if is_skipped_dir_name(child.name.as_str()) {
        proof {
            assert(child_rec == ScanRec::empty());
            assert(scan_kids(rest, o, w).total == rest_rec.total);
            assert(scan_kids(rest, o, w).repos =~= rest_rec.repos);
            assert(scan_kids(rest, o, w).events =~= rest_rec.events);
        }
        scan_kids_into(cs, i + 1, old_domain, new_domain, total, repos, events);
    } else {
        let ghost sub = scan_dir(cs@[i as int], o, w, false);
        proof {
            lemma_scan_dir_bounds(cs@[i as int], o, w, false);
            lemma_scan_kids_bounds(cs@.skip(i as int + 1), o, w);
            assert(child_rec.total == 1 + sub.total);
        }
        let ghost total0 = *total;
        let ghost rdv0 = repos.deep_view();
        let ghost edv0 = events.deep_view();
        *total = *total + 1;
        events.push(ScanEvent::Visiting(child.path.clone()));
        proof {
            assert(events.deep_view() =~= edv0.push(EventRec::Visiting(cs@[i as int].path@)));
        }
        scan_dir_into(child, old_domain, new_domain, false, total, repos, events);
        proof {
            assert(events.deep_view() =~= edv0 + child_rec.events);
        }
        scan_kids_into(cs, i + 1, old_domain, new_domain, total, repos, events);
        proof {
            assert(*total == total0 + scan_kids(rest, o, w).total);
            assert(repos.deep_view() =~= rdv0 + scan_kids(rest, o, w).repos);
            assert(events.deep_view() =~= edv0 + scan_kids(rest, o, w).events);
        }
    }
}

} // verus!
