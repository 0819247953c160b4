use lazyjj::commander::github::{
    parse_github_remote, parse_open_prs, pr_list_command, remote_url_command, CacheEntry,
    GitHubRepo, OpenPrs, OpenPrsLookup, PrLookupStep, PR_CACHE_TTL_NANOS,
};
use lazyjj::commander::text_map::TextMap;
use lazyjj::commander::{Commander, ProgramOutput};

fn repo(owner: &str, name: &str) -> GitHubRepo {
    GitHubRepo {
        owner: owner.into(),
        name: name.into(),
    }
}

#[test]
fn parse_ssh_remote() {
    assert_eq!(
        parse_github_remote("git@github.com:suno-ai/app-mobile.git"),
        Some(GitHubRepo {
            owner: "suno-ai".into(),
            name: "app-mobile".into(),
        })
    );
}

#[test]
fn parse_https_remote() {
    assert_eq!(
        parse_github_remote("https://github.com/suno-ai/app-mobile"),
        Some(GitHubRepo {
            owner: "suno-ai".into(),
            name: "app-mobile".into(),
        })
    );
}

#[test]
fn parse_ssh_protocol_remote() {
    assert_eq!(
        parse_github_remote("ssh://git@github.com/suno-ai/app-mobile.git"),
        Some(GitHubRepo {
            owner: "suno-ai".into(),
            name: "app-mobile".into(),
        })
    );
}

#[test]
fn parse_non_github_returns_none() {
    assert!(parse_github_remote("git@gitlab.com:foo/bar.git").is_none());
}

#[test]
fn pr_url_is_formatted() {
    let repo = GitHubRepo {
        owner: "suno-ai".into(),
        name: "app-mobile".into(),
    };
    assert_eq!(
        repo.pr_url(42),
        "https://github.com/suno-ai/app-mobile/pull/42"
    );
}

#[test]
fn pr_url_large_and_zero_numbers() {
    let r = repo("o", "n");
    assert_eq!(r.pr_url(0), "https://github.com/o/n/pull/0");
    assert_eq!(r.pr_url(4294967295), "https://github.com/o/n/pull/4294967295");
}

#[test]
fn parse_remote_edge_cases() {
    // The name keeps everything after the first slash.
    assert_eq!(parse_github_remote("https://github.com/a/b/c"), Some(repo("a", "b/c")));
    // Only one `.git` is removed.
    assert_eq!(parse_github_remote("https://github.com/a/b.git.git"), Some(repo("a", "b.git")));
    // Empty owner or name, or no slash.
    assert_eq!(parse_github_remote("https://github.com//b"), None);
    assert_eq!(parse_github_remote("https://github.com/a/"), None);
    assert_eq!(parse_github_remote("https://github.com/a/.git"), None);
    assert_eq!(parse_github_remote("https://github.com/ab"), None);
    assert_eq!(parse_github_remote(""), None);
    // The prefix is matched exactly.
    assert_eq!(parse_github_remote(" https://github.com/a/b"), None);
}

#[test]
fn parse_open_prs_reads_tab_separated_lines() {
    let m = parse_open_prs("12\tfeature\n 7 \t  fix-bug  \nnot a number\tx\n9\t\n33\n\n5\tfeature\r\n");
    let prs = OpenPrs {
        repo: None,
        by_branch: m,
    };
    // The last line for a branch wins, as a map insert does.
    assert_eq!(prs.pr_for_branch("feature"), Some(5));
    assert_eq!(prs.pr_for_branch("fix-bug"), Some(7));
    assert_eq!(prs.pr_for_branch("x"), None);
    assert_eq!(prs.pr_for_branch(""), None);
    assert_eq!(prs.pr_for_branch("33"), None);
}

#[test]
fn parse_open_prs_number_forms() {
    let m = parse_open_prs("+8\ta\n-8\tb\n4294967296\tc\n4294967295\td\n08\te\n");
    let prs = OpenPrs {
        repo: None,
        by_branch: m,
    };
    assert_eq!(prs.pr_for_branch("a"), Some(8));
    assert_eq!(prs.pr_for_branch("b"), None);
    assert_eq!(prs.pr_for_branch("c"), None);
    assert_eq!(prs.pr_for_branch("d"), Some(4294967295));
    assert_eq!(prs.pr_for_branch("e"), Some(8));
}

#[test]
fn commands_for_the_lookup() {
    let git = remote_url_command("/repo");
    assert_eq!(git.program, "git");
    assert_eq!(git.args, vec!["remote", "get-url", "origin"]);
    assert_eq!(git.current_dir.as_deref(), Some("/repo"));

    let gh = pr_list_command(&repo("suno-ai", "app-mobile"));
    assert_eq!(gh.program, "gh");
    assert_eq!(
        gh.args,
        vec![
            "pr",
            "list",
            "--repo",
            "suno-ai/app-mobile",
            "--state",
            "open",
            "--limit",
            "200",
            "--json",
            "number,headRefName",
            "--jq",
            r#".[] | "\(.number)\t\(.headRefName)""#,
        ]
    );
    assert!(gh.current_dir.is_none());
}

fn output(text: &str) -> Option<ProgramOutput> {
    Some(ProgramOutput {
        success: true,
        stdout: Some(text.into()),
    })
}

/// Drives a lookup to its end, answering each command from `answer`.
fn drive(
    lookup: &mut OpenPrsLookup,
    first: PrLookupStep,
    cache: &mut TextMap<CacheEntry>,
    now: u64,
    answer: &dyn Fn(&str) -> Option<ProgramOutput>,
) -> (OpenPrs, usize) {
    let mut step = first;
    let mut runs = 0;
    loop {
        match step {
            PrLookupStep::Done(v) => return (v, runs),
            PrLookupStep::Run(c) => {
                runs += 1;
                step = lookup.step(cache, answer(&c.program), now);
            }
        }
    }
}

#[test]
fn get_open_prs_fetches_then_caches() {
    let commander = Commander {
        root: "/repo".into(),
    };
    let mut cache: TextMap<CacheEntry> = TextMap::new();
    let answer = |program: &str| {
        if program == "git" {
            output("git@github.com:suno-ai/app-mobile.git\n")
        } else {
            output("42\tmy-branch\n")
        }
    };
    let (mut lookup, first) = commander.get_open_prs(&cache, 1000);
    let (prs, runs) = drive(&mut lookup, first, &mut cache, 1000, &answer);
    assert_eq!(runs, 2);
    assert_eq!(prs.repo, Some(repo("suno-ai", "app-mobile")));
    assert_eq!(prs.pr_for_branch("my-branch"), Some(42));

    // Within the time to live the cached value comes back without any command.
    let (mut lookup, first) = commander.get_open_prs(&cache, 1000 + PR_CACHE_TTL_NANOS - 1);
    let (prs, runs) = drive(&mut lookup, first, &mut cache, 0, &|_| None);
    assert_eq!(runs, 0);
    assert_eq!(prs.pr_for_branch("my-branch"), Some(42));

    // After it, the lookup runs again (and here fails, which is cached as empty).
    let later = 1000 + PR_CACHE_TTL_NANOS;
    let (mut lookup, first) = commander.get_open_prs(&cache, later);
    let (prs, runs) = drive(&mut lookup, first, &mut cache, later, &|_| None);
    assert_eq!(runs, 1);
    assert!(prs.repo.is_none());
    assert_eq!(prs.pr_for_branch("my-branch"), None);
    let (mut lookup, first) = commander.get_open_prs(&cache, later + 1);
    let (_, runs) = drive(&mut lookup, first, &mut cache, later + 1, &|_| None);
    assert_eq!(runs, 0);
}

#[test]
fn get_open_prs_without_gh_keeps_the_repo() {
    let commander = Commander {
        root: "/repo".into(),
    };
    let mut cache: TextMap<CacheEntry> = TextMap::new();
    let answer = |program: &str| {
        if program == "git" {
            output("https://github.com/a/b\n")
        } else {
            Some(ProgramOutput {
                success: false,
                stdout: Some("42\tx\n".into()),
            })
        }
    };
    let (mut lookup, first) = commander.get_open_prs(&cache, 5);
    let (prs, _) = drive(&mut lookup, first, &mut cache, 5, &answer);
    assert_eq!(prs.repo, Some(repo("a", "b")));
    assert_eq!(prs.pr_for_branch("x"), None);
}

#[test]
fn get_open_prs_non_github_remote_is_empty() {
    let commander = Commander {
        root: "/repo".into(),
    };
    let mut cache: TextMap<CacheEntry> = TextMap::new();
    let (mut lookup, first) = commander.get_open_prs(&cache, 5);
    let (prs, runs) = drive(&mut lookup, first, &mut cache, 5, &|_| {
        output("git@gitlab.com:foo/bar.git")
    });
    assert_eq!(runs, 1);
    assert!(prs.repo.is_none());
}

#[test]
fn open_prs_default_and_clone() {
    let prs = OpenPrs::default();
    assert!(prs.repo.is_none());
    assert_eq!(prs.pr_for_branch("main"), None);
    let mut m = TextMap::new();
    m.insert("main".to_string(), 3u32);
    m.insert("main".to_string(), 4u32);
    let prs = OpenPrs {
        repo: Some(repo("a", "b")),
        by_branch: m,
    };
    let copy = prs.clone();
    assert_eq!(copy.repo, Some(repo("a", "b")));
    assert_eq!(copy.pr_for_branch("main"), Some(4));
}
