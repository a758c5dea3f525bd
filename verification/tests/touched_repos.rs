use heddle::repos::{
    nearest_git_root, origin_url_from_output, parse_github_repo, pick_handoff_overlap_env, GithubRepo,
    OverlapCandidate, TouchedRepo, TouchedWorkspace,
};

fn repo(owner: &str, name: &str) -> GithubRepo {
    GithubRepo::new(owner.to_string(), name.to_string())
}

fn parsed(url: &str) -> Option<(String, String)> {
    parse_github_repo(url).map(|r| (r.owner, r.repo))
}

fn pair(owner: &str, name: &str) -> Option<(String, String)> {
    Some((owner.to_string(), name.to_string()))
}

#[test]
fn parses_every_github_remote_flavor() {
    assert_eq!(parsed("git@github.com:warpdotdev/warp.git"), pair("warpdotdev", "warp"));
    assert_eq!(parsed("https://github.com/warpdotdev/warp.git"), pair("warpdotdev", "warp"));
    assert_eq!(parsed("https://github.com/warpdotdev/warp"), pair("warpdotdev", "warp"));
    assert_eq!(parsed("ssh://git@github.com/warpdotdev/warp.git"), pair("warpdotdev", "warp"));
}

#[test]
fn surrounding_whitespace_is_ignored() {
    assert_eq!(parsed("  https://github.com/a/b.git\n"), pair("a", "b"));
}

#[test]
fn non_github_remotes_are_refused() {
    assert_eq!(parsed("https://gitlab.com/a/b.git"), None);
    assert_eq!(parsed("git@bitbucket.org:a/b.git"), None);
    assert_eq!(parsed(""), None);
}

#[test]
fn a_path_needs_both_an_owner_and_a_name() {
    assert_eq!(parsed("https://github.com/owner"), None);
    assert_eq!(parsed("https://github.com/owner/"), None);
    assert_eq!(parsed("https://github.com//repo"), None);
    assert_eq!(parsed("https://github.com/.git"), None);
}

#[test]
fn only_the_first_slash_separates_owner_from_name() {
    assert_eq!(parsed("https://github.com/a/b/c.git"), pair("a", "b/c"));
}

#[test]
fn only_one_git_suffix_is_stripped() {
    assert_eq!(parsed("https://github.com/a/b.git.git"), pair("a", "b.git"));
}

#[test]
fn a_url_and_its_trimmed_form_parse_alike() {
    for url in [
        " \tgit@github.com:a/b.git \n",
        "  https://gitlab.com/a/b ",
        "\nssh://git@github.com/o/r\t",
        "   ",
    ] {
        assert_eq!(parsed(url), parsed(url.trim()), "{url:?}");
    }
}

#[test]
fn the_git_suffix_never_changes_the_repo() {
    for prefix in ["git@github.com:", "https://github.com/", "ssh://git@github.com/"] {
        for rest in ["o/r", "o/r/s", "o", "", "o/"] {
            assert_eq!(
                parsed(&format!("{prefix}{rest}.git")),
                parsed(&format!("{prefix}{rest}")),
                "{prefix}{rest}"
            );
        }
    }
}

#[test]
fn a_parsed_repo_has_an_owner_without_slash_and_a_name() {
    for url in ["https://github.com/a/b/c.git", "git@github.com:x/y", "ssh://git@github.com/p/q.git"] {
        let (owner, repo) = parsed(url).unwrap();
        assert!(!owner.is_empty() && !owner.contains('/'));
        assert!(!repo.is_empty());
    }
}

#[test]
fn origin_output_is_trimmed_and_empty_output_is_no_remote() {
    assert_eq!(
        origin_url_from_output("git@github.com:a/b.git\n"),
        Some("git@github.com:a/b.git".to_string())
    );
    assert_eq!(origin_url_from_output(" \n\t"), None);
    assert_eq!(origin_url_from_output(""), None);
}

fn workspace(repos: Vec<Option<GithubRepo>>) -> TouchedWorkspace {
    TouchedWorkspace {
        repos: repos
            .into_iter()
            .map(|repo_id| TouchedRepo { repo_id })
            .collect(),
    }
}

/// An environment last used at `id` (so a larger id is more recent).
fn env(id: u32, repos: Vec<GithubRepo>) -> OverlapCandidate<u32> {
    env_used_at(id, repos, id as u64)
}

fn env_used_at(id: u32, repos: Vec<GithubRepo>, last_used: u64) -> OverlapCandidate<u32> {
    OverlapCandidate {
        id,
        github_repos: repos,
        last_used,
    }
}

#[test]
fn the_environment_with_the_most_overlap_wins() {
    let ws = workspace(vec![Some(repo("a", "x")), Some(repo("a", "y")), None]);
    let envs = vec![
        env(1, vec![repo("a", "x")]),
        env(2, vec![repo("a", "x"), repo("a", "y")]),
        env(3, vec![repo("b", "z")]),
    ];
    assert_eq!(pick_handoff_overlap_env(&ws, envs), Some(2));
}

#[test]
fn ties_go_to_the_most_recently_used_environment() {
    let ws = workspace(vec![Some(repo("a", "x"))]);
    let envs = vec![
        env_used_at(7, vec![repo("a", "x")], 100),
        env_used_at(8, vec![repo("a", "x"), repo("c", "d")], 300),
        env_used_at(9, vec![repo("a", "x")], 200),
    ];
    assert_eq!(pick_handoff_overlap_env(&ws, envs), Some(8));
}

#[test]
fn equally_recent_ties_go_to_the_earliest_listed() {
    let ws = workspace(vec![Some(repo("a", "x"))]);
    let envs = vec![
        env_used_at(7, vec![repo("a", "x")], 5),
        env_used_at(8, vec![repo("a", "x")], 5),
    ];
    assert_eq!(pick_handoff_overlap_env(&ws, envs), Some(7));
}

#[test]
fn a_higher_score_beats_a_more_recent_environment() {
    let ws = workspace(vec![Some(repo("a", "x")), Some(repo("a", "y"))]);
    let envs = vec![
        env_used_at(1, vec![repo("a", "x")], 900),
        env_used_at(2, vec![repo("a", "x"), repo("a", "y")], 1),
    ];
    assert_eq!(pick_handoff_overlap_env(&ws, envs), Some(2));
}

#[test]
fn no_overlap_picks_nothing() {
    let ws = workspace(vec![Some(repo("a", "x"))]);
    assert_eq!(
        pick_handoff_overlap_env(&ws, vec![env(1, vec![repo("b", "y")])]),
        None
    );
    assert_eq!(pick_handoff_overlap_env(&ws, Vec::<OverlapCandidate<u32>>::new()), None);
    let unmapped = workspace(vec![None, None]);
    assert_eq!(
        pick_handoff_overlap_env(&unmapped, vec![env(1, vec![repo("a", "x")])]),
        None
    );
}

#[test]
fn repos_compare_by_owner_and_name() {
    let ws = workspace(vec![Some(repo("a", "x"))]);
    assert_eq!(
        pick_handoff_overlap_env(&ws, vec![env(1, vec![repo("x", "a")])]),
        None
    );
}

#[test]
fn the_nearest_directory_holding_git_is_the_root() {
    assert_eq!(nearest_git_root(&vec![false, true, true]), Some(1));
    assert_eq!(nearest_git_root(&vec![true, false]), Some(0));
    assert_eq!(nearest_git_root(&vec![false, false]), None);
    assert_eq!(nearest_git_root(&vec![]), None);
}
