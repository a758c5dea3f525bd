//! The git repos a local agent run has touched, and the environment that overlaps them
//! most.
//!
//! A repo is identified by `<owner>/<repo>` parsed from its `origin` remote URL. Only
//! GitHub remotes are understood, in their SSH (`git@github.com:owner/repo.git`,
//! `ssh://git@github.com/owner/repo`) and HTTPS (`https://github.com/owner/repo[.git]`)
//! forms.

use vstd::prelude::*;
use crate::text::{
    chars_of, has_prefix_in, has_suffix_in, is_whitespace, lemma_trim_is_idempotent, str_eq,
    trim_bounds, trim_end_spec, trim_spec, trim_start_spec,
};

verus! {

/// A GitHub repository, as `<owner>/<repo>`.
#[derive(Debug, Clone, PartialEq, Eq)]
pub struct GithubRepo {
    pub owner: String,
    pub repo: String,
}

impl GithubRepo {
    /// The repo `owner/repo`.
    pub fn new(owner: String, repo: String) -> (r: Self)
        ensures
            r.owner == owner,
            r.repo == repo,
    {
        GithubRepo { owner, repo }
    }
}

/// A repo as plain values: owner and name.
pub open spec fn repo_view(r: GithubRepo) -> (Seq<char>, Seq<char>) {
    (r.owner@, r.repo@)
}

/// A single git repo touched by the local agent.
#[derive(Clone, Debug)]
pub struct TouchedRepo {
    /// `<owner>/<repo>` parsed from the `origin` remote URL, when discoverable.
    pub repo_id: Option<GithubRepo>,
}

/// The git repos the local agent has touched in the active conversation.
#[derive(Clone, Debug)]
pub struct TouchedWorkspace {
    pub repos: Vec<TouchedRepo>,
}

/// A cloud environment that may be picked for a handoff, with the repos it holds and when
/// it was last used (a larger value is more recent).
#[derive(Clone, Debug)]
pub struct OverlapCandidate<I> {
    pub id: I,
    pub github_repos: Vec<GithubRepo>,
    pub last_used: u64,
}

/// Whether `s` begins with `p`.
pub open spec fn has_prefix(s: Seq<char>, p: Seq<char>) -> bool {
    p.len() <= s.len() && s.take(p.len() as int) == p
}

/// Whether `s` ends with `p`.
pub open spec fn has_suffix(s: Seq<char>, p: Seq<char>) -> bool {
    p.len() <= s.len() && s.skip(s.len() - p.len()) == p
}

/// The repo path of a GitHub remote URL (already trimmed), if it has a known prefix.
#[verifier::opaque]
pub open spec fn github_path(t: Seq<char>) -> Option<Seq<char>> {
    if has_prefix(t, "git@github.com:"@) {
        Some(t.skip("git@github.com:"@.len() as int))
    } else if has_prefix(t, "https://github.com/"@) {
        Some(t.skip("https://github.com/"@.len() as int))
    } else if has_prefix(t, "ssh://git@github.com/"@) {
        Some(t.skip("ssh://git@github.com/"@.len() as int))
    } else {
        None
    }
}

/// `p` without a trailing `.git`.
#[verifier::opaque]
pub open spec fn strip_git_suffix(p: Seq<char>) -> Seq<char> {
    if has_suffix(p, ".git"@) {
        p.take(p.len() - ".git"@.len())
    } else {
        p
    }
}

/// The position of the first `/` in `p`, if any.
#[verifier::opaque]
pub open spec fn first_slash(p: Seq<char>) -> Option<int> {
    if exists|i: int| 0 <= i < p.len() && p[i] == '/' {
        Some(
            choose|i: int|
                0 <= i < p.len() && p[i] == '/' && forall|j: int| 0 <= j < i ==> p[j] != '/',
        )
    } else {
        None
    }
}

/// The `(owner, repo)` a GitHub remote URL names: the path after the known prefix, without
/// a `.git` suffix, split at its first `/`, with both halves non-empty.
#[verifier::opaque]
pub open spec fn parse_github_repo_spec(url: Seq<char>) -> Option<(Seq<char>, Seq<char>)> {
    match github_path(trim_spec(url)) {
        None => None,
        Some(path) => {
            let p = strip_git_suffix(path);
            match first_slash(p) {
                None => None,
                Some(i) => if i > 0 && i + 1 < p.len() {
                    Some((p.take(i), p.skip(i + 1)))
                } else {
                    None
                },
            }
        },
    }
}

/// The first `/` of `p` is the one a forward scan stops at.
proof fn lemma_first_slash_at(p: Seq<char>, i: int)
    requires
        0 <= i < p.len(),
        p[i] == '/',
        forall|j: int| 0 <= j < i ==> p[j] != '/',
    ensures
        first_slash(p) == Some(i),
{
    reveal(first_slash);
    let k = choose|k: int|
        0 <= k < p.len() && p[k] == '/' && forall|j: int| 0 <= j < k ==> p[j] != '/';
    assert(0 <= k < p.len() && p[k] == '/');
    if k < i {
        assert(p[k] != '/');
    }
    if k > i {
        assert(p[i] != '/');
    }
}

/// `t` does not begin with `prefix` when the scan found no match.
proof fn lemma_no_prefix(chars: Seq<char>, lo: int, hi: int, prefix: Seq<char>)
    requires
        0 <= lo <= hi <= chars.len(),
        !(prefix.len() <= hi - lo && chars.subrange(lo, lo + prefix.len()) == prefix),
    ensures
        !has_prefix(chars.subrange(lo, hi), prefix),
{
    let t = chars.subrange(lo, hi);
    if prefix.len() <= t.len() {
        assert(t.take(prefix.len() as int) =~= chars.subrange(lo, lo + prefix.len()));
    }
}

/// `t` begins with `prefix` when the scan found a match.
proof fn lemma_prefix(chars: Seq<char>, lo: int, hi: int, prefix: Seq<char>)
    requires
        0 <= lo <= hi <= chars.len(),
        prefix.len() <= hi - lo && chars.subrange(lo, lo + prefix.len()) == prefix,
    ensures
        has_prefix(chars.subrange(lo, hi), prefix),
        chars.subrange(lo, hi).skip(prefix.len() as int) == chars.subrange(lo + prefix.len(), hi),
{
    let t = chars.subrange(lo, hi);
    assert(t.take(prefix.len() as int) =~= chars.subrange(lo, lo + prefix.len()));
    assert(t.skip(prefix.len() as int) =~= chars.subrange(lo + prefix.len(), hi));
}

/// Where the repo path of `chars[lo..hi]` starts, when it has a known GitHub prefix.
fn github_path_start(chars: &Vec<char>, lo: usize, hi: usize) -> (r: Option<usize>)
    requires
        lo <= hi <= chars@.len(),
    ensures
        match r {
            Some(start) => lo <= start <= hi && github_path(chars@.subrange(lo as int, hi as int))
                == Some(chars@.subrange(start as int, hi as int)),
            None => github_path(chars@.subrange(lo as int, hi as int)) is None,
        },
{
    reveal(github_path);
    if has_prefix_in(chars, lo, hi, "git@github.com:") {
        proof {
            lemma_prefix(chars@, lo as int, hi as int, "git@github.com:"@);
        }
        return Some(lo + "git@github.com:".unicode_len());
    }
    proof {
        lemma_no_prefix(chars@, lo as int, hi as int, "git@github.com:"@);
    }
    if has_prefix_in(chars, lo, hi, "https://github.com/") {
        proof {
            lemma_prefix(chars@, lo as int, hi as int, "https://github.com/"@);
        }
        return Some(lo + "https://github.com/".unicode_len());
    }
    proof {
        lemma_no_prefix(chars@, lo as int, hi as int, "https://github.com/"@);
    }
    if has_prefix_in(chars, lo, hi, "ssh://git@github.com/") {
        proof {
            lemma_prefix(chars@, lo as int, hi as int, "ssh://git@github.com/"@);
        }
        return Some(lo + "ssh://git@github.com/".unicode_len());
    }
    proof {
        lemma_no_prefix(chars@, lo as int, hi as int, "ssh://git@github.com/"@);
    }
    None
}

/// Where `chars[lo..hi]` ends once a trailing `.git` is dropped.
fn git_suffix_end(chars: &Vec<char>, lo: usize, hi: usize) -> (r: usize)
    requires
        lo <= hi <= chars@.len(),
    ensures
        lo <= r <= hi,
        chars@.subrange(lo as int, r as int) == strip_git_suffix(
            chars@.subrange(lo as int, hi as int),
        ),
{
    reveal(strip_git_suffix);
    let ghost path = chars@.subrange(lo as int, hi as int);
    if has_suffix_in(chars, lo, hi, ".git") {
        assert(path.skip(path.len() - ".git"@.len()) =~= chars@.subrange(
            hi - ".git"@.len(),
            hi as int,
        ));
        let end = hi - ".git".unicode_len();
        assert(path.take(path.len() - ".git"@.len()) =~= chars@.subrange(lo as int, end as int));
        end
    } else {
        proof {
            if ".git"@.len() <= path.len() {
                assert(path.skip(path.len() - ".git"@.len()) =~= chars@.subrange(
                    hi - ".git"@.len(),
                    hi as int,
                ));
            }
        }
        hi
    }
}

/// The position of the first `/` in `chars[lo..end]`, if any.
fn find_slash(chars: &Vec<char>, lo: usize, end: usize) -> (r: Option<usize>)
    requires
        lo <= end <= chars@.len(),
    ensures
        match r {
            Some(k) => lo <= k < end && first_slash(chars@.subrange(lo as int, end as int)) == Some(
                (k - lo) as int,
            ),
            None => first_slash(chars@.subrange(lo as int, end as int)) is None,
        },
{
    let ghost p = chars@.subrange(lo as int, end as int);
    let mut k: usize = lo;
    while k < end
        invariant
            lo <= k <= end <= chars@.len(),
            p == chars@.subrange(lo as int, end as int),
            forall|j: int| 0 <= j < k - lo ==> p[j] != '/',
        decreases end - k,
    {
        assert(p[(k - lo) as int] == chars@[k as int]);
        if chars[k] == '/' {
            proof {
                lemma_first_slash_at(p, (k - lo) as int);
            }
            return Some(k);
        }
        k = k + 1;
    }
    proof {
        reveal(first_slash);
    }
    None
}

/// How the parse ends, given the stages it went through.
proof fn lemma_parse_stages(
    url: Seq<char>,
    t: Seq<char>,
    path: Option<Seq<char>>,
    p: Seq<char>,
    slash: Option<int>,
)
    requires
        t == trim_spec(url),
        github_path(t) == path,
        path matches Some(pa) ==> strip_git_suffix(pa) == p,
        path is Some ==> first_slash(p) == slash,
    ensures
        parse_github_repo_spec(url) == match path {
            None => None,
            Some(_) => match slash {
                None => None,
                Some(i) => if i > 0 && i + 1 < p.len() {
                    Some((p.take(i), p.skip(i + 1)))
                } else {
                    None
                },
            },
        },
{
    reveal(parse_github_repo_spec);
}

/// Parse a GitHub remote URL of either the SSH or the HTTPS flavor into a repo. Returns
/// `None` for non-GitHub remotes and for paths without both an owner and a name.
pub fn parse_github_repo(remote_url: &str) -> (r: Option<GithubRepo>)
    ensures
        match parse_github_repo_spec(remote_url@) {
            Some((owner, repo)) => r matches Some(g) && g.owner@ == owner && g.repo@ == repo,
            None => r is None,
        },
{
    let chars = chars_of(remote_url);
    let (lo0, hi) = trim_bounds(&chars);
    let ghost t = chars@.subrange(lo0 as int, hi as int);
    assert(t == trim_spec(remote_url@));
    let lo = match github_path_start(&chars, lo0, hi) {
        Some(lo) => lo,
        None => {
            proof {
                lemma_parse_stages(remote_url@, t, None, Seq::empty(), None);
            }
            return None;
        },
    };
    let ghost path = chars@.subrange(lo as int, hi as int);
    let end = git_suffix_end(&chars, lo, hi);
    let ghost p = chars@.subrange(lo as int, end as int);
    let k = match find_slash(&chars, lo, end) {
        Some(k) => k,
        None => {
            proof {
                lemma_parse_stages(remote_url@, t, Some(path), p, None);
            }
            return None;
        },
    };
    proof {
        lemma_parse_stages(remote_url@, t, Some(path), p, Some((k - lo) as int));
    }
    if k == lo || k + 1 == end {
        return None;
    }
    let r = repo_from_parts(remote_url, lo, k, end);
    assert(r.owner@ =~= p.take((k - lo) as int));
    assert(r.repo@ =~= p.skip((k - lo) + 1));
    Some(r)
}

/// The repo whose owner is `url[lo..k]` and whose name is `url[k + 1..end]`.
fn repo_from_parts(url: &str, lo: usize, k: usize, end: usize) -> (r: GithubRepo)
    requires
        lo <= k < end <= url@.len(),
    ensures
        r.owner@ == url@.subrange(lo as int, k as int),
        r.repo@ == url@.subrange(k + 1, end as int),
{
    let owner = url.substring_char(lo, k).to_owned();
    let repo = url.substring_char(k + 1, end).to_owned();
    GithubRepo::new(owner, repo)
}

/// The trimmed output of `git remote get-url origin`, when it is not empty.
pub fn origin_url_from_output(stdout: &str) -> (r: Option<String>)
    ensures
        match r {
            Some(url) => url@ == trim_spec(stdout@) && url@.len() > 0,
            None => trim_spec(stdout@).len() == 0,
        },
{
    let chars = chars_of(stdout);
    let (lo, hi) = trim_bounds(&chars);
    if lo == hi {
        None
    } else {
        let url = stdout.substring_char(lo, hi).to_owned();
        Some(url)
    }
}

/// Trimming a string that starts and ends with non-white-space text `p` only trims what
/// follows `p`.
proof fn lemma_trim_after_prefix(p: Seq<char>, x: Seq<char>)
    requires
        p.len() > 0,
        !is_whitespace(p[0]),
        !is_whitespace(p.last()),
    ensures
        trim_spec(p + x) == p + trim_end_spec(x),
    decreases x.len(),
{
    assert((p + x)[0] == p[0]);
    assert(trim_start_spec(p + x) == p + x);
    lemma_trim_end_after_prefix(p, x);
}

/// Trimming the end of `p + x` only trims `x`, when `p` ends with non-white space.
proof fn lemma_trim_end_after_prefix(p: Seq<char>, x: Seq<char>)
    requires
        p.len() > 0,
        !is_whitespace(p.last()),
    ensures
        trim_end_spec(p + x) == p + trim_end_spec(x),
    decreases x.len(),
{
    if x.len() == 0 {
        assert(p + x =~= p);
        assert((p + x).last() == p.last());
    } else {
        assert((p + x).last() == x.last());
        if is_whitespace(x.last()) {
            assert((p + x).drop_last() =~= p + x.drop_last());
            lemma_trim_end_after_prefix(p, x.drop_last());
        } else {
            assert(trim_end_spec(x) == x);
        }
    }
}

/// The repo path of a URL made of a known prefix and `y`.
proof fn lemma_github_path_of(y: Seq<char>)
    ensures
        github_path("git@github.com:"@ + y) == Some(y),
        github_path("https://github.com/"@ + y) == Some(y),
        github_path("ssh://git@github.com/"@ + y) == Some(y),
{
    reveal(github_path);
    reveal_strlit("git@github.com:");
    reveal_strlit("https://github.com/");
    reveal_strlit("ssh://git@github.com/");
    let a = "git@github.com:"@;
    let b = "https://github.com/"@;
    let c = "ssh://git@github.com/"@;
    assert((a + y).take(a.len() as int) =~= a);
    assert((a + y).skip(a.len() as int) =~= y);
    assert((b + y).take(b.len() as int) =~= b);
    assert((b + y).skip(b.len() as int) =~= y);
    assert((b + y).take(a.len() as int)[0] != a[0]);
    assert((c + y).take(c.len() as int) =~= c);
    assert((c + y).skip(c.len() as int) =~= y);
    assert((c + y).take(a.len() as int)[0] != a[0]);
    assert((c + y).take(b.len() as int)[0] != b[0]);
}

/// Law: the SSH and HTTPS forms of a GitHub remote name the same repo. Whatever follows
/// `git@github.com:`, `https://github.com/` or `ssh://git@github.com/`, the three URLs
/// parse alike.
pub proof fn lemma_remote_forms_agree(x: Seq<char>)
    ensures
        parse_github_repo_spec("git@github.com:"@ + x) == parse_github_repo_spec(
            "https://github.com/"@ + x,
        ),
        parse_github_repo_spec("ssh://git@github.com/"@ + x) == parse_github_repo_spec(
            "https://github.com/"@ + x,
        ),
{
    reveal(parse_github_repo_spec);
    reveal_strlit("git@github.com:");
    reveal_strlit("https://github.com/");
    reveal_strlit("ssh://git@github.com/");
    let a = "git@github.com:"@;
    let b = "https://github.com/"@;
    let c = "ssh://git@github.com/"@;
    lemma_trim_after_prefix(a, x);
    lemma_trim_after_prefix(b, x);
    lemma_trim_after_prefix(c, x);
    lemma_github_path_of(trim_end_spec(x));
}

/// Law: white space around a remote URL does not matter. A URL and its trimmed form parse
/// alike.
pub proof fn lemma_parse_ignores_surrounding_space(url: Seq<char>)
    ensures
        parse_github_repo_spec(url) == parse_github_repo_spec(trim_spec(url)),
{
    reveal(parse_github_repo_spec);
    lemma_trim_is_idempotent(url);
}

/// Law: only GitHub remotes parse. A URL that, trimmed, starts with none of
/// `git@github.com:`, `https://github.com/` and `ssh://git@github.com/` names no repo.
pub proof fn lemma_parse_needs_a_github_prefix(url: Seq<char>)
    requires
        !has_prefix(trim_spec(url), "git@github.com:"@),
        !has_prefix(trim_spec(url), "https://github.com/"@),
        !has_prefix(trim_spec(url), "ssh://git@github.com/"@),
    ensures
        parse_github_repo_spec(url) is None,
{
    reveal(parse_github_repo_spec);
    reveal(github_path);
}

/// Law: a `.git` suffix does not change the repo. For each GitHub prefix and each `x` that
/// does not itself end with `.git` or with white space, the remote with `.git` appended
/// parses as the one without.
pub proof fn lemma_git_suffix_is_ignored(x: Seq<char>)
    requires
        !has_suffix(x, ".git"@),
        x.len() == 0 || !is_whitespace(x.last()),
    ensures
        parse_github_repo_spec("git@github.com:"@ + x + ".git"@) == parse_github_repo_spec(
            "git@github.com:"@ + x,
        ),
        parse_github_repo_spec("https://github.com/"@ + x + ".git"@) == parse_github_repo_spec(
            "https://github.com/"@ + x,
        ),
        parse_github_repo_spec("ssh://git@github.com/"@ + x + ".git"@) == parse_github_repo_spec(
            "ssh://git@github.com/"@ + x,
        ),
{
    reveal(parse_github_repo_spec);
    reveal(strip_git_suffix);
    reveal_strlit("git@github.com:");
    reveal_strlit("https://github.com/");
    reveal_strlit("ssh://git@github.com/");
    reveal_strlit(".git");
    let g = ".git"@;
    let y = x + g;
    assert(trim_end_spec(x) == x);
    assert(y.last() == 't');
    assert(trim_end_spec(y) == y);
    assert(y.skip(y.len() - g.len()) =~= g);
    assert(y.take(y.len() - g.len()) =~= x);
    assert(strip_git_suffix(y) == x);
    assert(strip_git_suffix(x) == x);
    let a = "git@github.com:"@;
    let b = "https://github.com/"@;
    let c = "ssh://git@github.com/"@;
    lemma_trim_after_prefix(a, x);
    lemma_trim_after_prefix(b, x);
    lemma_trim_after_prefix(c, x);
    lemma_trim_after_prefix(a, y);
    lemma_trim_after_prefix(b, y);
    lemma_trim_after_prefix(c, y);
    assert(a + x + g =~= a + y);
    assert(b + x + g =~= b + y);
    assert(c + x + g =~= c + y);
    lemma_github_path_of(x);
    lemma_github_path_of(y);
}

/// Where `p` has a `/`, it has a first one.
proof fn lemma_some_slash_is_first(p: Seq<char>, i: int)
    requires
        0 <= i < p.len(),
        p[i] == '/',
    ensures
        exists|k: int| 0 <= k <= i && p[k] == '/' && forall|j: int| 0 <= j < k ==> p[j] != '/',
    decreases i,
{
    if exists|j: int| 0 <= j < i && p[j] == '/' {
        let j = choose|j: int| 0 <= j < i && p[j] == '/';
        lemma_some_slash_is_first(p, j);
    } else {
        assert(0 <= i <= i && p[i] == '/' && forall|j: int| 0 <= j < i ==> p[j] != '/');
    }
}

/// Law: a parsed repo has a non-empty owner without `/` and a non-empty name.
pub proof fn lemma_parsed_repo_shape(url: Seq<char>)
    requires
        parse_github_repo_spec(url) is Some,
    ensures
        ({
            let (owner, repo) = parse_github_repo_spec(url)->0;
            &&& owner.len() > 0
            &&& forall|k: int| 0 <= k < owner.len() ==> #[trigger] owner[k] != '/'
            &&& repo.len() > 0
        }),
{
    reveal(parse_github_repo_spec);
    reveal(first_slash);
    let path = github_path(trim_spec(url))->0;
    let p = strip_git_suffix(path);
    let w = choose|w: int| 0 <= w < p.len() && p[w] == '/';
    lemma_some_slash_is_first(p, w);
    let i = first_slash(p)->0;
    let owner = p.take(i);
    assert forall|k: int| 0 <= k < owner.len() implies #[trigger] owner[k] != '/' by {
        assert(owner[k] == p[k]);
    }
}

/// Which directory is the root of the work tree, walking up from where a path lies: given,
/// for the starting directory and then each of its ancestors in turn, whether it holds a
/// `.git` entry, the position of the first that does; `None` when none does.
pub fn nearest_git_root(has_git: &Vec<bool>) -> (r: Option<usize>)
    ensures
        match r {
            Some(i) => i < has_git@.len() && has_git@[i as int] && forall|j: int|
                0 <= j < i ==> !#[trigger] has_git@[j],
            None => forall|j: int| 0 <= j < has_git@.len() ==> !#[trigger] has_git@[j],
        },
{
    let mut i: usize = 0;
    while i < has_git.len()
        invariant
            i <= has_git@.len(),
            forall|j: int| 0 <= j < i ==> !#[trigger] has_git@[j],
        decreases has_git@.len() - i,
    {
        if has_git[i] {
            return Some(i);
        }
        i = i + 1;
    }
    None
}

/// Whether `repos` holds a repo with the same owner and name as `id`.
pub open spec fn holds_repo(repos: Seq<GithubRepo>, id: GithubRepo) -> bool {
    exists|i: int| 0 <= i < repos.len() && repo_view(#[trigger] repos[i]) == repo_view(id)
}

/// The repo ids of the touched repos, in order, skipping repos without one.
pub open spec fn touched_ids(repos: Seq<TouchedRepo>) -> Seq<GithubRepo>
    decreases repos.len(),
{
    if repos.len() == 0 {
        Seq::empty()
    } else {
        match repos.last().repo_id {
            Some(id) => touched_ids(repos.drop_last()).push(id),
            None => touched_ids(repos.drop_last()),
        }
    }
}

/// How many of the touched repo ids an environment holds, counted with repetition.
pub open spec fn overlap_score(touched: Seq<GithubRepo>, env_repos: Seq<GithubRepo>) -> nat
    decreases touched.len(),
{
    if touched.len() == 0 {
        0
    } else {
        overlap_score(touched.drop_last(), env_repos) + if holds_repo(env_repos, touched.last()) {
            1nat
        } else {
            0nat
        }
    }
}

/// The position and score of the best candidate: the one with the highest positive score,
/// ties going to the most recently used, and remaining ties to the earliest listed; `None`
/// when no candidate holds any touched repo.
pub open spec fn best_overlap<I>(envs: Seq<OverlapCandidate<I>>, touched: Seq<GithubRepo>) -> Option<(int, nat)>
    decreases envs.len(),
{
    if envs.len() == 0 {
        None
    } else {
        let prev = best_overlap(envs.drop_last(), touched);
        let score = overlap_score(touched, envs.last().github_repos@);
        if score == 0 {
            prev
        } else {
            match prev {
                None => Some(((envs.len() - 1) as int, score)),
                Some((i, current)) => if score > current || (score == current
                    && envs.last().last_used > envs[i].last_used) {
                    Some(((envs.len() - 1) as int, score))
                } else {
                    prev
                },
            }
        }
    }
}

/// Whether `a` and `b` are the same repo.
fn same_repo(a: &GithubRepo, b: &GithubRepo) -> (r: bool)
    ensures
        r == (repo_view(*a) == repo_view(*b)),
{
    str_eq(a.owner.as_str(), b.owner.as_str()) && str_eq(a.repo.as_str(), b.repo.as_str())
}

/// Whether `repos` holds `id`.
fn contains_repo(repos: &Vec<GithubRepo>, id: &GithubRepo) -> (r: bool)
    ensures
        r == holds_repo(repos@, *id),
{
    let mut i: usize = 0;
    while i < repos.len()
        invariant
            i <= repos@.len(),
            forall|j: int| 0 <= j < i ==> repo_view(#[trigger] repos@[j]) != repo_view(*id),
        decreases repos.len() - i,
    {
        if same_repo(&repos[i], id) {
            return true;
        }
        i = i + 1;
    }
    false
}

/// The repo ids of the touched workspace.
fn collect_touched_ids(workspace: &TouchedWorkspace) -> (r: Vec<GithubRepo>)
    ensures
        r@ == touched_ids(workspace.repos@),
{
    let mut ids: Vec<GithubRepo> = Vec::new();
    let mut i: usize = 0;
    while i < workspace.repos.len()
        invariant
            i <= workspace.repos@.len(),
            ids@ == touched_ids(workspace.repos@.take(i as int)),
        decreases workspace.repos.len() - i,
    {
        assert(workspace.repos@.take(i + 1).drop_last() =~= workspace.repos@.take(i as int));
        assert(workspace.repos@.take(i + 1).last() == workspace.repos@[i as int]);
        match &workspace.repos[i].repo_id {
            Some(id) => ids.push(GithubRepo { owner: id.owner.clone(), repo: id.repo.clone() }),
            None => {},
        }
        i = i + 1;
    }
    assert(workspace.repos@.take(i as int) =~= workspace.repos@);
    ids
}

/// How many of `touched` an environment's repos hold.
fn score_env(touched: &Vec<GithubRepo>, env_repos: &Vec<GithubRepo>) -> (r: usize)
    ensures
        r == overlap_score(touched@, env_repos@),
{
    let mut score: usize = 0;
    let mut i: usize = 0;
    while i < touched.len()
        invariant
            i <= touched@.len(),
            score <= i,
            score == overlap_score(touched@.take(i as int), env_repos@),
        decreases touched.len() - i,
    {
        assert(touched@.take(i + 1).drop_last() =~= touched@.take(i as int));
        assert(touched@.take(i + 1).last() == touched@[i as int]);
        if contains_repo(env_repos, &touched[i]) {
            score = score + 1;
        }
        i = i + 1;
    }
    assert(touched@.take(i as int) =~= touched@);
    score
}

/// A score never exceeds the number of touched ids.
proof fn lemma_overlap_score_bounded(touched: Seq<GithubRepo>, env_repos: Seq<GithubRepo>)
    ensures
        overlap_score(touched, env_repos) <= touched.len(),
    decreases touched.len(),
{
    if touched.len() > 0 {
        lemma_overlap_score_bounded(touched.drop_last(), env_repos);
    }
}

/// Pick the environment that has the most overlap with the touched repos, breaking ties
/// by recency: of the best, the most recently used is kept (the earliest listed, among
/// those used at the same time). Returns `None` when no environment holds any touched repo.
pub fn pick_handoff_overlap_env<I>(workspace: &TouchedWorkspace, envs: Vec<OverlapCandidate<I>>) -> (r:
    Option<I>)
    ensures
        match best_overlap(envs@, touched_ids(workspace.repos@)) {
            Some((i, _)) => r == Some(envs@[i].id),
            None => r is None,
        },
{
    let touched = collect_touched_ids(workspace);
    let ghost all = envs@;
    let mut best: Option<(usize, usize)> = None;
    let mut i: usize = 0;
    while i < envs.len()
        invariant
            all == envs@,
            touched@ == touched_ids(workspace.repos@),
            i <= all.len(),
            match best_overlap(all.take(i as int), touched@) {
                Some((j, score)) => best matches Some((bj, bs)) && bj == j && bs == score && 0 <= j
                    < i,
                None => best is None,
            },
        decreases envs.len() - i,
    {
        assert(all.take(i + 1).drop_last() =~= all.take(i as int));
        assert(all.take(i + 1).last() == all[i as int]);
        let score = score_env(&touched, &envs[i].github_repos);
        assert(score == overlap_score(touched@, all.take(i + 1).last().github_repos@));
        proof {
            lemma_best_overlap_is_first_maximum(all.take(i as int), touched@);
            if let Some((j, sc)) = best_overlap(all.take(i as int), touched@) {
                lemma_overlap_score_bounded(touched@, all.take(i as int)[j].github_repos@);
                assert(all.take(i + 1)[j] == all[j]);
            }
        }
        assert(all.take(i + 1).len() - 1 == i);
        if score > 0 {
            match best {
                None => {
                    best = Some((i, score));
                },
                Some((j, current)) => {
                    if score > current || (score == current && envs[i].last_used
                        > envs[j].last_used) {
                        best = Some((i, score));
                    }
                },
            }
        }
        i = i + 1;
    }
    assert(all.take(i as int) =~= all);
    match best {
        None => None,
        Some((j, _)) => {
            let mut envs = envs;
            let chosen = envs.remove(j);
            Some(chosen.id)
        },
    }
}

/// Law: the picked environment is a best one. It holds at least one touched repo, no
/// environment scores higher, none with the same score was used more recently, and every
/// environment listed before it scores lower or was used less recently. When nothing is
/// picked, no environment holds a touched repo.
pub proof fn lemma_best_overlap_is_first_maximum<I>(
    envs: Seq<OverlapCandidate<I>>,
    touched: Seq<GithubRepo>,
)
    ensures
        match best_overlap(envs, touched) {
            Some((i, score)) => {
                &&& 0 <= i < envs.len()
                &&& score == overlap_score(touched, envs[i].github_repos@)
                &&& score > 0
                &&& forall|j: int|
                    0 <= j < envs.len() ==> overlap_score(touched, (#[trigger] envs[j]).github_repos@)
                        <= score
                &&& forall|j: int|
                    0 <= j < envs.len() && overlap_score(touched, (#[trigger] envs[j]).github_repos@)
                        == score ==> envs[j].last_used <= envs[i].last_used
                &&& forall|j: int|
                    0 <= j < i ==> overlap_score(touched, (#[trigger] envs[j]).github_repos@)
                        < score || envs[j].last_used < envs[i].last_used
            },
            None => forall|j: int|
                0 <= j < envs.len() ==> overlap_score(touched, (#[trigger] envs[j]).github_repos@)
                    == 0,
        },
    decreases envs.len(),
{
    if envs.len() > 0 {
        let prev = envs.drop_last();
        let last = envs.len() - 1;
        lemma_best_overlap_is_first_maximum(prev, touched);
        assert(envs.last() == envs[last]);
        assert forall|j: int| 0 <= j < last implies #[trigger] envs[j] == prev[j] by {}
        let sc = overlap_score(touched, envs[last].github_repos@);
        match best_overlap(prev, touched) {
            None => {
                assert forall|j: int| 0 <= j < last implies overlap_score(
                    touched,
                    (#[trigger] envs[j]).github_repos@,
                ) == 0 by {
                    assert(envs[j] == prev[j]);
                }
            },
            Some((i, current)) => {
                assert(envs[i] == prev[i]);
                assert forall|j: int| 0 <= j < last implies overlap_score(
                    touched,
                    (#[trigger] envs[j]).github_repos@,
                ) <= current by {
                    assert(envs[j] == prev[j]);
                }
                assert forall|j: int|
                    0 <= j < last && overlap_score(touched, (#[trigger] envs[j]).github_repos@)
                        == current implies envs[j].last_used <= envs[i].last_used by {
                    assert(envs[j] == prev[j]);
                }
                assert forall|j: int| 0 <= j < i implies overlap_score(
                    touched,
                    (#[trigger] envs[j]).github_repos@,
                ) < current || envs[j].last_used < envs[i].last_used by {
                    assert(envs[j] == prev[j]);
                }
            },
        }
    }
}

} // verus!
