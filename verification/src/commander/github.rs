//! GitHub integration: which GitHub repository the current repository's
//! `origin` remote points at, and which pull requests are open on it, so the
//! log tab can annotate changes that have open PRs and open them in a browser.
//!
//! The lookup runs `git` and `gh`; both may be missing or fail, and then the
//! feature is silently off. Results are cached per repository root for a minute.

use vstd::prelude::*;

use crate::commander::text_map::TextMap;
use crate::commander::{
    owned_strings, string_views, successful_stdout, successful_stdout_of, Commander,
    ProgramCommand, ProgramOutput,
};
use crate::text::{
    chars_of, lines, parse_u32, parse_u32_chars, push_decimal, split_lines,
    split_once, split_once_chars, string_of, strip_prefix, strip_prefix_chars, strip_suffix,
    strip_suffix_chars, trim, trim_chars, decimal, views,
};

verus! {

/// Owner/repo pair parsed from `git remote get-url origin`.
#[derive(Debug, PartialEq, Eq)]
pub struct GitHubRepo {
    pub owner: String,
    pub name: String,
}

impl Clone for GitHubRepo {
    fn clone(&self) -> (r: Self)
        ensures
            r == *self,
    {
        GitHubRepo { owner: self.owner.clone(), name: self.name.clone() }
    }
}

impl View for GitHubRepo {
    type V = (Seq<char>, Seq<char>);

    open spec fn view(&self) -> (Seq<char>, Seq<char>) {
        (self.owner@, self.name@)
    }
}

/// The view of an optional repository.
pub open spec fn repo_view(r: Option<GitHubRepo>) -> Option<(Seq<char>, Seq<char>)> {
    match r {
        Some(r) => Some(r@),
        None => None,
    }
}

/// The web address of pull request `number` of `owner/name`:
/// `https://github.com/{owner}/{name}/pull/{number}`.
pub open spec fn pr_url_text(owner: Seq<char>, name: Seq<char>, number: u32) -> Seq<char> {
    "https://github.com/"@ + owner + "/"@ + name + "/pull/"@ + decimal(number as nat)
}

impl GitHubRepo {
    pub fn pr_url(&self, number: u32) -> (url: String)
        ensures
            url@ == pr_url_text(self.owner@, self.name@, number),
    {
        let mut url = String::from_str("https://github.com/");
        url.append(self.owner.as_str());
        url.append("/");
        url.append(self.name.as_str());
        url.append("/pull/");
        push_decimal(&mut url, number);
        url
    }
}

/// Information about open PRs for a repo, keyed by head branch name.
pub struct OpenPrs {
    pub repo: Option<GitHubRepo>,
    pub by_branch: TextMap<u32>,
}

impl View for OpenPrs {
    type V = (Option<(Seq<char>, Seq<char>)>, Map<Seq<char>, u32>);

    open spec fn view(&self) -> Self::V {
        (repo_view(self.repo), self.by_branch@)
    }
}

/// No repository and no pull requests: what is known when the feature is off.
pub open spec fn no_open_prs() -> (Option<(Seq<char>, Seq<char>)>, Map<Seq<char>, u32>) {
    (None, Map::empty())
}

impl Default for OpenPrs {
    fn default() -> (r: Self)
        ensures
            r@ == no_open_prs(),
    {
        OpenPrs { repo: None, by_branch: TextMap::new() }
    }
}

impl Clone for OpenPrs {
    fn clone(&self) -> (r: Self)
        ensures
            r@ == self@,
    {
        let repo = match &self.repo {
            Some(r) => Some(r.clone()),
            None => None,
        };
        OpenPrs { repo, by_branch: self.by_branch.copied() }
    }
}

impl OpenPrs {
    /// The number of the open pull request whose head is `branch`.
    pub fn pr_for_branch(&self, branch: &str) -> (r: Option<u32>)
        ensures
            r == (if self.by_branch@.contains_key(branch@) {
                Some(self.by_branch@[branch@])
            } else {
                None
            }),
    {
        match self.by_branch.get(branch) {
            Some(n) => Some(*n),
            None => None,
        }
    }
}

// ---------------------------------------------------------------------------
// Remote URLs

/// The part of a remote URL after a GitHub host prefix (`git@github.com:`,
/// `https://github.com/` or `ssh://git@github.com/`, tried in that order).
pub open spec fn github_path(url: Seq<char>) -> Option<Seq<char>> {
    match strip_prefix(url, "git@github.com:"@) {
        Some(p) => Some(p),
        None => match strip_prefix(url, "https://github.com/"@) {
            Some(p) => Some(p),
            None => strip_prefix(url, "ssh://git@github.com/"@),
        },
    }
}

/// The owner and repository named by a GitHub remote URL: the path after the
/// host, without one trailing `.git`, split at its first `/` into two non-empty
/// parts.
pub open spec fn github_remote(url: Seq<char>) -> Option<(Seq<char>, Seq<char>)> {
    match github_path(url) {
        None => None,
        Some(p) => {
            let q = match strip_suffix(p, ".git"@) {
                Some(q) => q,
                None => p,
            };
            match split_once(q, '/') {
                None => None,
                Some(parts) => if parts.0.len() == 0 || parts.1.len() == 0 {
                    None
                } else {
                    Some(parts)
                },
            }
        },
    }
}

/// Parse a GitHub remote URL into (owner, repo). Accepts both SSH and HTTPS
/// forms, with or without a trailing `.git`. Returns None for non-GitHub
/// remotes.
pub fn parse_github_remote(url: &str) -> (r: Option<GitHubRepo>)
    ensures
        repo_view(r) == github_remote(url@),
{
    let u = chars_of(url);
    let stripped = match strip_prefix_chars(&u, &chars_of("git@github.com:")) {
        Some(p) => p,
        None => match strip_prefix_chars(&u, &chars_of("https://github.com/")) {
            Some(p) => p,
            None => match strip_prefix_chars(&u, &chars_of("ssh://git@github.com/")) {
                Some(p) => p,
                None => return None,
            },
        },
    };
    assert(github_path(url@) == Some(stripped@));
    let stripped = match strip_suffix_chars(&stripped, &chars_of(".git")) {
        Some(q) => q,
        None => stripped,
    };
    let (owner, name) = match split_once_chars(&stripped, '/') {
        Some(parts) => parts,
        None => return None,
    };
    if owner.len() == 0 || name.len() == 0 {
        return None;
    }
    Some(GitHubRepo { owner: string_of(&owner), name: string_of(&name) })
}

/// The command that asks `git` for the URL of the `origin` remote of the
/// repository at `root`.
pub open spec fn is_remote_url_command(c: ProgramCommand, root: Seq<char>) -> bool {
    &&& c.program@ == "git"@
    &&& string_views(c.args@) == seq!["remote"@, "get-url"@, "origin"@]
    &&& c.current_dir matches Some(d) && d@ == root
}

/// The `git` command whose output `parse_github_remote` reads.
pub fn remote_url_command(root: &str) -> (c: ProgramCommand)
    ensures
        is_remote_url_command(c, root@),
{
    let args = owned_strings(&vec!["remote", "get-url", "origin"]);
    assert(string_views(args@) =~= seq!["remote"@, "get-url"@, "origin"@]);
    ProgramCommand {
        program: String::from_str("git"),
        args,
        current_dir: Some(String::from_str(root)),
    }
}

// ---------------------------------------------------------------------------
// Open pull requests

/// The `owner/name` slug of a repository.
pub open spec fn repo_slug(owner: Seq<char>, name: Seq<char>) -> Seq<char> {
    owner + "/"@ + name
}

/// The arguments of `gh pr list` for the repository `slug`: up to 200 open pull
/// requests, printed one per line as the number, a tab, and the head branch.
pub open spec fn pr_list_args(slug: Seq<char>) -> Seq<Seq<char>> {
    seq![
        "pr"@,
        "list"@,
        "--repo"@,
        slug,
        "--state"@,
        "open"@,
        "--limit"@,
        "200"@,
        "--json"@,
        "number,headRefName"@,
        "--jq"@,
        ".[] | \"\\(.number)\\t\\(.headRefName)\""@,
    ]
}

/// Whether `c` runs `gh pr list` for `owner/name`.
pub open spec fn is_pr_list_command(c: ProgramCommand, owner: Seq<char>, name: Seq<char>) -> bool {
    &&& c.program@ == "gh"@
    &&& string_views(c.args@) == pr_list_args(repo_slug(owner, name))
    &&& c.current_dir is None
}

/// The `gh` command that lists the open pull requests of `repo`.
pub fn pr_list_command(repo: &GitHubRepo) -> (c: ProgramCommand)
    ensures
        is_pr_list_command(c, repo.owner@, repo.name@),
{
    let mut slug = repo.owner.clone();
    slug.append("/");
    slug.append(repo.name.as_str());
    let mut args = owned_strings(
        &vec![
            "pr",
            "list",
            "--repo",
            "",
            "--state",
            "open",
            "--limit",
            "200",
            "--json",
            "number,headRefName",
            "--jq",
            ".[] | \"\\(.number)\\t\\(.headRefName)\"",
        ],
    );
    args.set(3, slug);
    assert(string_views(args@) =~= pr_list_args(repo_slug(repo.owner@, repo.name@)));
    ProgramCommand { program: String::from_str("gh"), args, current_dir: None }
}

/// What one line of the `gh pr list` output says: the text before its first tab,
/// trimmed, is the number; the rest, trimmed, is the branch. Lines without a
/// tab, with a number that does not parse, or with an empty branch say nothing.
pub open spec fn pr_line(line: Seq<char>) -> Option<(Seq<char>, u32)> {
    match split_once(line, '\t') {
        None => None,
        Some(parts) => match parse_u32(trim(parts.0)) {
            None => None,
            Some(n) => if trim(parts.1).len() == 0 {
                None
            } else {
                Some((trim(parts.1), n))
            },
        },
    }
}

/// A text whose first and last characters are not whitespace is its own trim.
proof fn lemma_trim_of_trimmed(t: Seq<char>)
    requires
        t.len() > 0 ==> !crate::text::is_whitespace(t[0]) && !crate::text::is_whitespace(t.last()),
    ensures
        trim(t) == t,
{
    let r = crate::text::lemma_trim_is_inner_stretch(t);
    if r.0 > 0 {
        assert(crate::text::is_whitespace(t[0]));
    }
    if r.1 < t.len() {
        assert(crate::text::is_whitespace(t[t.len() - 1]));
    }
    assert(t.subrange(0, t.len() as int) == t);
}

/// A line that `gh pr list --jq` prints is read back: the number in base ten, a
/// tab, and a non-empty branch name without surrounding whitespace give that
/// branch and number.
pub proof fn lemma_pr_line_roundtrip(n: u32, branch: Seq<char>)
    requires
        branch.len() > 0,
        !crate::text::is_whitespace(branch[0]),
        !crate::text::is_whitespace(branch.last()),
    ensures
        pr_line(decimal(n as nat) + seq!['\t'] + branch) == Some((branch, n)),
{
    let d = decimal(n as nat);
    crate::text::lemma_decimal_spells(n as nat);
    assert forall|k: int| 0 <= k < d.len() implies #[trigger] d[k] != '\t' by {
        assert(crate::text::is_digit(d[k]));
    }
    crate::text::lemma_split_once_at_first(d, branch, '\t');
    assert(crate::text::is_digit(d[0]));
    assert(crate::text::is_digit(d[d.len() - 1]));
    lemma_trim_of_trimmed(d);
    lemma_trim_of_trimmed(branch);
}

/// The branch-to-number map that the lines of a `gh pr list` output give, each
/// line in turn setting its branch.
pub open spec fn open_prs_map(ls: Seq<Seq<char>>) -> Map<Seq<char>, u32>
    decreases ls.len(),
{
    if ls.len() == 0 {
        Map::empty()
    } else {
        let m = open_prs_map(ls.drop_last());
        match pr_line(ls.last()) {
            Some(e) => m.insert(e.0, e.1),
            None => m,
        }
    }
}

/// Reads one line of the `gh pr list` output.
fn parse_pr_line(line: &Vec<char>) -> (r: Option<(String, u32)>)
    ensures
        r matches Some(e) ==> pr_line(line@) == Some((e.0@, e.1)),
        r is None ==> pr_line(line@) is None,
{
    let (first, rest) = match split_once_chars(line, '\t') {
        Some(parts) => parts,
        None => {
            return None;
        },
    };
    let number = match parse_u32_chars(&trim_chars(&first)) {
        Some(n) => n,
        None => {
            return None;
        },
    };
    let branch = trim_chars(&rest);
    if branch.len() == 0 {
        return None;
    }
    Some((string_of(&branch), number))
}

/// The open pull requests, by head branch, that a `gh pr list` output lists
/// (the output of `pr_list_command`).
pub fn parse_open_prs(text: &str) -> (m: TextMap<u32>)
    ensures
        m@ == open_prs_map(lines(text@)),
{
    let ls = split_lines(&chars_of(text));
    let mut m: TextMap<u32> = TextMap::new();
    let mut i: usize = 0;
    while i < ls.len()
        invariant
            i <= ls.len(),
            views(ls@) == lines(text@),
            m@ == open_prs_map(views(ls@).take(i as int)),
        decreases ls.len() - i,
    {
        assert(views(ls@).take(i + 1).drop_last() == views(ls@).take(i as int));
        assert(views(ls@).take(i + 1).last() == ls@[i as int]@);
        match parse_pr_line(&ls[i]) {
            Some((branch, number)) => m.insert(branch, number),
            None => {},
        }
        i += 1;
    }
    assert(views(ls@).take(ls.len() as int) == views(ls@));
    m
}

/// When several lines list the same branch, the last of them decides its number.
pub proof fn lemma_open_prs_last_line_wins(ls: Seq<Seq<char>>, i: int, branch: Seq<char>, n: u32)
    requires
        0 <= i < ls.len(),
        pr_line(ls[i]) == Some((branch, n)),
        forall|j: int| i < j < ls.len() ==> !(#[trigger] pr_line(ls[j]) matches Some(e) && e.0 == branch),
    ensures
        open_prs_map(ls).contains_key(branch),
        open_prs_map(ls)[branch] == n,
    decreases ls.len(),
{
    if i < ls.len() - 1 {
        lemma_open_prs_last_line_wins(ls.drop_last(), i, branch, n);
        assert(ls.last() == ls[ls.len() - 1]);
    }
}

/// A branch that no line lists has no pull request.
pub proof fn lemma_open_prs_unlisted(ls: Seq<Seq<char>>, branch: Seq<char>)
    requires
        forall|j: int| 0 <= j < ls.len() ==> !(#[trigger] pr_line(ls[j]) matches Some(e) && e.0 == branch),
    ensures
        !open_prs_map(ls).contains_key(branch),
    decreases ls.len(),
{
    if ls.len() > 0 {
        lemma_open_prs_unlisted(ls.drop_last(), branch);
        assert(ls.last() == ls[ls.len() - 1]);
    }
}

/// The first `/` of `owner + "/" + rest` is the one after `owner`, when `owner`
/// holds no `/`.
proof fn lemma_split_after_owner(owner: Seq<char>, rest: Seq<char>)
    requires
        forall|i: int| 0 <= i < owner.len() ==> owner[i] != '/',
    ensures
        split_once(owner + "/"@ + rest, '/') == Some((owner, rest)),
{
    reveal_strlit("/");
    let q = owner + "/"@ + rest;
    crate::text::lemma_first_index_of(q, '/');
    let fi = crate::text::first_index_of(q, '/');
    assert(q[owner.len() as int] == '/');
    if fi < owner.len() {
        assert(q[fi as int] == owner[fi as int]);
    }
    assert(fi == owner.len());
    assert(q.take(owner.len() as int) == owner);
    assert(q.skip(owner.len() + 1 as int) == rest);
}

/// A remote URL made of a GitHub host prefix, an owner without `/`, a `/`, and a
/// non-empty repository name, followed by `.git`, parses to that owner and name;
/// so does the same URL without `.git` when the name does not itself end in `.git`.
pub proof fn lemma_github_remote_roundtrip(prefix: Seq<char>, owner: Seq<char>, name: Seq<char>)
    requires
        prefix == "git@github.com:"@ || prefix == "https://github.com/"@ || prefix
            == "ssh://git@github.com/"@,
        owner.len() > 0,
        forall|i: int| 0 <= i < owner.len() ==> owner[i] != '/',
        name.len() > 0,
    ensures
        github_remote(prefix + owner + "/"@ + name + ".git"@) == Some((owner, name)),
        !crate::text::ends_with(name, ".git"@) ==> github_remote(prefix + owner + "/"@ + name)
            == Some((owner, name)),
{
    reveal_strlit("git@github.com:");
    reveal_strlit("https://github.com/");
    reveal_strlit("ssh://git@github.com/");
    reveal_strlit(".git");
    reveal_strlit("/");
    let q = owner + "/"@ + name;
    lemma_split_after_owner(owner, name);
    // With `.git`.
    let u1 = prefix + q + ".git"@;
    assert(u1 == prefix + owner + "/"@ + name + ".git"@);
    assert(u1.take(prefix.len() as int) == prefix);
    assert(u1.skip(prefix.len() as int) == q + ".git"@);
    assert(github_path(u1) == Some(q + ".git"@)) by {
        if prefix != "git@github.com:"@ {
            assert(u1[0] != "git@github.com:"@[0]);
        }
        if prefix == "ssh://git@github.com/"@ {
            assert(u1[0] != "https://github.com/"@[0]);
        }
    }
    assert((q + ".git"@).skip((q + ".git"@).len() - 4) == ".git"@);
    assert((q + ".git"@).take(q.len() as int) == q);
    // Without `.git`.
    let u2 = prefix + q;
    assert(u2 == prefix + owner + "/"@ + name);
    assert(u2.take(prefix.len() as int) == prefix);
    assert(u2.skip(prefix.len() as int) == q);
    assert(github_path(u2) == Some(q)) by {
        if prefix != "git@github.com:"@ {
            assert(u2[0] != "git@github.com:"@[0]);
        }
        if prefix == "ssh://git@github.com/"@ {
            assert(u2[0] != "https://github.com/"@[0]);
        }
    }
    if !crate::text::ends_with(name, ".git"@) {
        if crate::text::ends_with(q, ".git"@) {
            let tail = q.skip(q.len() - 4);
            if name.len() >= 4 {
                assert(tail == name.skip(name.len() - 4));
            } else {
                let k = 3 - name.len();
                assert(tail[k] == q[owner.len() as int]);
                assert(tail[k] == '/');
            }
        }
    }
}

// ---------------------------------------------------------------------------
// The cached lookup

/// How long a successful lookup is reused before re-fetching, in nanoseconds
/// (one minute). Keeps the TUI responsive on every log refresh while still
/// picking up new PRs within roughly a minute.
pub const PR_CACHE_TTL_NANOS: u64 = 60_000_000_000;

/// A cached lookup: when it was made (nanoseconds on the caller's monotonic
/// clock) and what it found.
pub struct CacheEntry {
    pub fetched_at: u64,
    pub value: OpenPrs,
}

/// Whether a lookup made at `fetched_at` is still fresh at `now`: less than the
/// time to live has passed (no time has passed if the clock reads earlier).
pub open spec fn is_fresh(fetched_at: u64, now: u64) -> bool {
    (if now >= fetched_at {
        now - fetched_at
    } else {
        0
    }) < PR_CACHE_TTL_NANOS
}

/// The cached lookup for `key` that may still be used at `now`, if any.
pub open spec fn fresh_cached(cache: Map<Seq<char>, CacheEntry>, key: Seq<char>, now: u64) -> Option<
    (Option<(Seq<char>, Seq<char>)>, Map<Seq<char>, u32>),
> {
    if cache.contains_key(key) && is_fresh(cache[key].fetched_at, now) {
        Some(cache[key].value@)
    } else {
        None
    }
}

/// A lookup stored at time `t` is what a lookup for the same key at `now` finds,
/// while it is fresh; after that, the lookup runs again.
pub proof fn lemma_cache_read_after_write(
    cache: Map<Seq<char>, CacheEntry>,
    key: Seq<char>,
    entry: CacheEntry,
    now: u64,
)
    ensures
        is_fresh(entry.fetched_at, now) ==> fresh_cached(cache.insert(key, entry), key, now) == Some(
            entry.value@,
        ),
        !is_fresh(entry.fetched_at, now) ==> fresh_cached(cache.insert(key, entry), key, now)
            is None,
{
}

/// Where a lookup of the open pull requests stands.
pub enum PrLookupStage {
    /// Waiting for the URL of the `origin` remote.
    Remote,
    /// Waiting for the pull requests of this repository.
    PullRequests(GitHubRepo),
    /// Done.
    Finished,
}

/// A lookup of the open pull requests of the repository whose root is `key`.
pub struct OpenPrsLookup {
    pub key: String,
    pub stage: PrLookupStage,
}

/// What the caller does next for a lookup: run a program and hand its output to
/// `OpenPrsLookup::step`, or take the result.
pub enum PrLookupStep {
    Run(ProgramCommand),
    Done(OpenPrs),
}

impl Commander {
    /// Best-effort fetch of open PRs for the current repo. Never errors — if
    /// `git` or `gh` fail (not installed, not authed, no GitHub remote), the
    /// result is an empty `OpenPrs` and the feature is silently disabled.
    ///
    /// The result is cached per repo root with `PR_CACHE_TTL_NANOS` in `cache`;
    /// callers can hit this on the per-refresh hot path without firing a network
    /// request every time. `now` is the caller's monotonic clock in nanoseconds.
    ///
    /// Starts the lookup: a fresh cached result is returned at once; otherwise the
    /// caller runs `git` to read the `origin` remote and continues with
    /// `OpenPrsLookup::step`.
    pub fn get_open_prs(&self, cache: &TextMap<CacheEntry>, now: u64) -> (r: (
        OpenPrsLookup,
        PrLookupStep,
    ))
        ensures
            r.0.key@ == self.root@,
            fresh_cached(cache@, self.root@, now) matches Some(v) ==> {
                &&& r.1 matches PrLookupStep::Done(d) && d@ == v
                &&& r.0.stage is Finished
            },
            fresh_cached(cache@, self.root@, now) is None ==> {
                &&& r.1 matches PrLookupStep::Run(c) && is_remote_url_command(c, self.root@)
                &&& r.0.stage is Remote
            },
    {
        let key = self.root.clone();
        if let Some(entry) = cache.get(self.root.as_str()) {
            let age = now.saturating_sub(entry.fetched_at);
            if age < PR_CACHE_TTL_NANOS {
                return (
                    OpenPrsLookup { key, stage: PrLookupStage::Finished },
                    PrLookupStep::Done(entry.value.clone()),
                );
            }
        }
        let command = remote_url_command(self.root.as_str());
        (OpenPrsLookup { key, stage: PrLookupStage::Remote }, PrLookupStep::Run(command))
    }
}

/// The repository that the output of `git remote get-url origin` names.
pub open spec fn detected_repo(output: Option<ProgramOutput>) -> Option<(Seq<char>, Seq<char>)> {
    match successful_stdout(output) {
        Some(url) => github_remote(trim(url)),
        None => None,
    }
}

/// The pull requests that the output of `gh pr list` gives: none when it failed.
pub open spec fn listed_prs(output: Option<ProgramOutput>) -> Map<Seq<char>, u32> {
    match successful_stdout(output) {
        Some(text) => open_prs_map(lines(text)),
        None => Map::empty(),
    }
}

impl OpenPrsLookup {
    /// Takes the output of the program that the previous step ran (`None` when it
    /// could not be run) and says what comes next. A result is stored in `cache`
    /// under the lookup's key with time `now`, including the empty result of a
    /// failed lookup, so that failures are not retried on every refresh either.
    pub fn step(
        &mut self,
        cache: &mut TextMap<CacheEntry>,
        output: Option<ProgramOutput>,
        now: u64,
    ) -> (r: PrLookupStep)
        requires
            !(old(self).stage is Finished),
        ensures
            final(self).key == old(self).key,
            old(self).stage is Remote && detected_repo(output) is None ==> {
                &&& r matches PrLookupStep::Done(d) && d@ == no_open_prs()
                &&& final(cache)@ == old(cache)@.insert(
                    old(self).key@,
                    final(cache)@[old(self).key@],
                )
                &&& final(cache)@[old(self).key@].fetched_at == now
                &&& final(cache)@[old(self).key@].value@ == no_open_prs()
                &&& final(self).stage is Finished
            },
            old(self).stage is Remote && detected_repo(output) is Some ==> {
                let repo = detected_repo(output)->0;
                &&& r matches PrLookupStep::Run(c) && is_pr_list_command(c, repo.0, repo.1)
                &&& final(cache)@ == old(cache)@
                &&& final(self).stage matches PrLookupStage::PullRequests(g) && g@ == repo
            },
            old(self).stage matches PrLookupStage::PullRequests(g) ==> {
                &&& r matches PrLookupStep::Done(d) && d@ == (Some(g@), listed_prs(output))
                &&& final(cache)@ == old(cache)@.insert(
                    old(self).key@,
                    final(cache)@[old(self).key@],
                )
                &&& final(cache)@[old(self).key@].fetched_at == now
                &&& final(cache)@[old(self).key@].value@ == (Some(g@), listed_prs(output))
                &&& final(self).stage is Finished
            },
    {
        let mut stage = PrLookupStage::Finished;
        std::mem::swap(&mut stage, &mut self.stage);
        match stage {
            PrLookupStage::Remote => {
                let repo = match successful_stdout_of(output) {
                    Some(url) => {
                        let t = trim_chars(&chars_of(url.as_str()));
                        parse_github_remote(string_of(&t).as_str())
                    },
                    None => None,
                };
                match repo {
                    Some(repo) => {
                        let command = pr_list_command(&repo);
                        self.stage = PrLookupStage::PullRequests(repo);
                        PrLookupStep::Run(command)
                    },
                    None => {
                        let value = OpenPrs::default();
                        cache.insert(
                            self.key.clone(),
                            CacheEntry { fetched_at: now, value: value.clone() },
                        );
                        PrLookupStep::Done(value)
                    },
                }
            },
            PrLookupStage::PullRequests(repo) => {
                let by_branch = match successful_stdout_of(output) {
                    Some(text) => parse_open_prs(text.as_str()),
                    None => TextMap::new(),
                };
                let value = OpenPrs { repo: Some(repo), by_branch };
                cache.insert(self.key.clone(), CacheEntry { fetched_at: now, value: value.clone() });
                PrLookupStep::Done(value)
            },
            PrLookupStage::Finished => PrLookupStep::Done(OpenPrs::default()),
        }
    }
}

} // verus!
