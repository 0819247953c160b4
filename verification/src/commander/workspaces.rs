//! `jj workspace`: listing the workspaces, finding their roots, and the commands
//! that add, forget, rename and update them.
//!
//! Each workspace is an additional working copy backed by the same `.jj/repo`.
//! Each has its own `@` (working-copy commit), and other workspaces'
//! working-copy commits show up in the log as ordinary nodes labeled `<name>@`.

use vstd::prelude::*;

use crate::commander::{
    owned_strings, remove_end_line, remove_end_line_of, string_views, CommandError, Commander,
    JjCommand,
};
use crate::text::{
    chars_of, lines, slice_of, split_lines, split_once, split_once_chars, starts_with, string_of,
    views, has_prefix,
};

verus! {

/// A workspace, with its working-copy commit and whether lazyjj is attached to it.
#[derive(Debug, PartialEq, Eq)]
pub struct Workspace {
    pub name: String,
    pub change_id_short: String,
    pub commit_id_short: String,
    pub empty: bool,
    pub description: String,
    pub root: String,
    pub is_current: bool,
}

/// The contents of a `Workspace`, with its strings as character sequences.
pub struct WorkspaceView {
    pub name: Seq<char>,
    pub change_id_short: Seq<char>,
    pub commit_id_short: Seq<char>,
    pub empty: bool,
    pub description: Seq<char>,
    pub root: Seq<char>,
    pub is_current: bool,
}

impl View for Workspace {
    type V = WorkspaceView;

    open spec fn view(&self) -> WorkspaceView {
        WorkspaceView {
            name: self.name@,
            change_id_short: self.change_id_short@,
            commit_id_short: self.commit_id_short@,
            empty: self.empty,
            description: self.description@,
            root: self.root@,
            is_current: self.is_current,
        }
    }
}

impl Clone for Workspace {
    fn clone(&self) -> (r: Self)
        ensures
            r == *self,
    {
        Workspace {
            name: self.name.clone(),
            change_id_short: self.change_id_short.clone(),
            commit_id_short: self.commit_id_short.clone(),
            empty: self.empty,
            description: self.description.clone(),
            root: self.root.clone(),
            is_current: self.is_current,
        }
    }
}

/// The views of a sequence of workspaces.
pub open spec fn workspace_views(ws: Seq<Workspace>) -> Seq<WorkspaceView> {
    ws.map_values(|w: Workspace| w@)
}

// ---------------------------------------------------------------------------
// The listing template and its lines

/// Template which outputs `[name|change_id_short|commit_id_short|empty|first_line_of_description]`.
pub open spec fn workspace_template() -> Seq<char> {
    "\"[\" ++ name ++ \"|\" ++ target.change_id().short() ++ \"|\" ++ target.commit_id().short() ++ \"|\" ++ if(target.empty(), \"true\", \"false\") ++ \"|\" ++ target.description().first_line() ++ \"]\\n\""@
}

/// What a line of the listing says about a workspace: its name, change and
/// commit ids, whether it is empty, and the first line of its description.
pub struct WorkspaceFields {
    pub name: Seq<char>,
    pub change_id_short: Seq<char>,
    pub commit_id_short: Seq<char>,
    pub empty: bool,
    pub description: Seq<char>,
}

/// Whether `s` holds the character `c`.
pub open spec fn has_char(s: Seq<char>, c: char) -> bool {
    exists|i: int| 0 <= i < s.len() && s[i] == c
}

/// A line of the listing: `[`, four fields without `|` each followed by `|`,
/// a description without a line feed, and `]` ending the line. The fourth field
/// is `true` for an empty working-copy commit. Other lines say nothing.
pub open spec fn workspace_line(line: Seq<char>) -> Option<WorkspaceFields> {
    if line.len() < 2 || line[0] != '[' || line.last() != ']' {
        None
    } else {
        let inner = line.subrange(1, line.len() - 1);
        match split_once(inner, '|') {
            None => None,
            Some(p1) => match split_once(p1.1, '|') {
                None => None,
                Some(p2) => match split_once(p2.1, '|') {
                    None => None,
                    Some(p3) => match split_once(p3.1, '|') {
                        None => None,
                        Some(p4) => if has_char(p4.1, '\n') {
                            None
                        } else {
                            Some(
                                WorkspaceFields {
                                    name: p1.0,
                                    change_id_short: p2.0,
                                    commit_id_short: p3.0,
                                    empty: p4.0 == "true"@,
                                    description: p4.1,
                                },
                            )
                        },
                    },
                },
            },
        }
    }
}

/// A line that the template prints is read back: `[`, the name, change id,
/// commit id and empty flag (none holding `|`), each followed by `|`, then a
/// description without a line feed, and `]` give those fields, the workspace
/// being empty exactly when the flag is `true`.
pub proof fn lemma_workspace_line_roundtrip(
    name: Seq<char>,
    change: Seq<char>,
    commit: Seq<char>,
    flag: Seq<char>,
    description: Seq<char>,
)
    requires
        forall|k: int| 0 <= k < name.len() ==> #[trigger] name[k] != '|',
        forall|k: int| 0 <= k < change.len() ==> #[trigger] change[k] != '|',
        forall|k: int| 0 <= k < commit.len() ==> #[trigger] commit[k] != '|',
        forall|k: int| 0 <= k < flag.len() ==> #[trigger] flag[k] != '|',
        forall|k: int| 0 <= k < description.len() ==> #[trigger] description[k] != '\n',
    ensures
        workspace_line(
            seq!['['] + name + seq!['|'] + change + seq!['|'] + commit + seq!['|'] + flag + seq![
                '|',
            ] + description + seq![']'],
        ) == Some(
            WorkspaceFields {
                name,
                change_id_short: change,
                commit_id_short: commit,
                empty: flag == "true"@,
                description,
            },
        ),
{
    let bar = seq!['|'];
    let r4 = flag + bar + description;
    let r3 = commit + bar + r4;
    let r2 = change + bar + r3;
    let inner = name + bar + r2;
    let line = seq!['['] + name + seq!['|'] + change + seq!['|'] + commit + seq!['|'] + flag + seq![
        '|',
    ] + description + seq![']'];
    assert(line == seq!['['] + inner + seq![']']);
    assert(line.subrange(1, line.len() - 1) == inner);
    assert(line[0] == '[');
    assert(line.last() == ']');
    crate::text::lemma_split_once_at_first(name, r2, '|');
    crate::text::lemma_split_once_at_first(change, r3, '|');
    crate::text::lemma_split_once_at_first(commit, r4, '|');
    crate::text::lemma_split_once_at_first(flag, description, '|');
    assert(name + seq!['|'] + r2 == inner);
    assert(change + seq!['|'] + r3 == r2);
    assert(commit + seq!['|'] + r4 == r3);
    assert(flag + seq!['|'] + description == r4);
    if has_char(description, '\n') {
        let k = choose|k: int| 0 <= k < description.len() && description[k] == '\n';
        assert(description[k] != '\n');
    }
}

/// The workspaces that the lines of a listing describe, in order.
pub open spec fn workspace_entries(ls: Seq<Seq<char>>) -> Seq<WorkspaceFields>
    decreases ls.len(),
{
    if ls.len() == 0 {
        seq![]
    } else {
        let prev = workspace_entries(ls.drop_last());
        match workspace_line(ls.last()) {
            Some(f) => prev.push(f),
            None => prev,
        }
    }
}

/// A workspace as one line of the listing describes it, before its root is known.
pub struct WorkspaceEntry {
    pub name: String,
    pub change_id_short: String,
    pub commit_id_short: String,
    pub empty: bool,
    pub description: String,
}

impl View for WorkspaceEntry {
    type V = WorkspaceFields;

    open spec fn view(&self) -> WorkspaceFields {
        WorkspaceFields {
            name: self.name@,
            change_id_short: self.change_id_short@,
            commit_id_short: self.commit_id_short@,
            empty: self.empty,
            description: self.description@,
        }
    }
}

/// The views of a sequence of entries.
pub open spec fn entry_views(es: Seq<WorkspaceEntry>) -> Seq<WorkspaceFields> {
    es.map_values(|e: WorkspaceEntry| e@)
}

/// Whether `v` holds the character `c`.
fn contains_char(v: &Vec<char>, c: char) -> (r: bool)
    ensures
        r == has_char(v@, c),
{
    let mut i: usize = 0;
    while i < v.len()
        invariant
            i <= v.len(),
            forall|j: int| 0 <= j < i ==> v@[j] != c,
        decreases v.len() - i,
    {
        if v[i] == c {
            return true;
        }
        i += 1;
    }
    false
}

/// Reads one line of the listing.
pub fn parse_workspace_line(line: &Vec<char>) -> (r: Option<WorkspaceEntry>)
    ensures
        r matches Some(e) ==> workspace_line(line@) == Some(e@),
        r is None ==> workspace_line(line@) is None,
{
    let n = line.len();
    if n < 2 || line[0] != '[' || line[n - 1] != ']' {
        return None;
    }
    let inner = slice_of(line, 1, n - 1);
    let (name, rest) = match split_once_chars(&inner, '|') {
        Some(p) => p,
        None => return None,
    };
    let (change_id_short, rest) = match split_once_chars(&rest, '|') {
        Some(p) => p,
        None => return None,
    };
    let (commit_id_short, rest) = match split_once_chars(&rest, '|') {
        Some(p) => p,
        None => return None,
    };
    let (empty, description) = match split_once_chars(&rest, '|') {
        Some(p) => p,
        None => return None,
    };
    if contains_char(&description, '\n') {
        return None;
    }
    let empty = crate::text::same_text(string_of(&empty).as_str(), "true");
    Some(
        WorkspaceEntry {
            name: string_of(&name),
            change_id_short: string_of(&change_id_short),
            commit_id_short: string_of(&commit_id_short),
            empty,
            description: string_of(&description),
        },
    )
}

/// The workspaces that a listing describes, in order.
pub fn parse_workspace_list(text: &str) -> (es: Vec<WorkspaceEntry>)
    ensures
        entry_views(es@) == workspace_entries(lines(text@)),
{
    let ls = split_lines(&chars_of(text));
    let mut es: Vec<WorkspaceEntry> = Vec::new();
    let mut i: usize = 0;
    assert(entry_views(es@) =~= Seq::<WorkspaceFields>::empty());
    while i < ls.len()
        invariant
            i <= ls.len(),
            views(ls@) == lines(text@),
            entry_views(es@) == workspace_entries(views(ls@).take(i as int)),
        decreases ls.len() - i,
    {
        assert(views(ls@).take(i + 1).drop_last() == views(ls@).take(i as int));
        assert(views(ls@).take(i + 1).last() == ls@[i as int]@);
        match parse_workspace_line(&ls[i]) {
            Some(e) => {
                let ghost before = es@;
                es.push(e);
                assert(entry_views(es@) =~= entry_views(before).push(e@));
            },
            None => {},
        }
        i += 1;
    }
    assert(views(ls@).take(ls.len() as int) == views(ls@));
    es
}

// ---------------------------------------------------------------------------
// Commands

/// `jj workspace list -T <template>`.
pub open spec fn workspace_list_args() -> Seq<Seq<char>> {
    seq!["workspace"@, "list"@, "-T"@, workspace_template()]
}

/// `jj workspace root [--name <NAME>]`.
pub open spec fn workspace_root_args(name: Option<Seq<char>>) -> Seq<Seq<char>> {
    match name {
        Some(n) => seq!["workspace"@, "root"@, "--name"@, n],
        None => seq!["workspace"@, "root"@],
    }
}

/// `jj workspace add [--name <NAME>] [-r <REVISION>] <PATH>`.
pub open spec fn workspace_add_args(
    path: Seq<char>,
    name: Option<Seq<char>>,
    revision: Option<Seq<char>>,
) -> Seq<Seq<char>> {
    seq!["workspace"@, "add"@] + (match name {
        Some(n) => seq!["--name"@, n],
        None => seq![],
    }) + (match revision {
        Some(r) => seq!["-r"@, r],
        None => seq![],
    }) + seq![path]
}

/// The view of an optional string slice.
pub open spec fn opt_view(s: Option<&str>) -> Option<Seq<char>> {
    match s {
        Some(s) => Some(s@),
        None => None,
    }
}

/// Whether `c` runs `jj` with arguments `args`, without colors and quietly,
/// as reading commands do.
pub open spec fn is_reading_command(c: JjCommand, args: Seq<Seq<char>>) -> bool {
    string_views(c.args@) == args && !c.color && c.quiet
}

/// Whether `c` runs `jj` with arguments `args`, with colors and quietly, as
/// changing commands do.
pub open spec fn is_changing_command(c: JjCommand, args: Seq<Seq<char>>) -> bool {
    string_views(c.args@) == args && c.color && c.quiet
}

/// The `jj workspace root` command for the workspace `name` (the current one
/// when `None`).
fn workspace_root_command(name: Option<&str>) -> (c: JjCommand)
    ensures
        is_reading_command(c, workspace_root_args(opt_view(name))),
{
    let args = match name {
        Some(n) => owned_strings(&vec!["workspace", "root", "--name", n]),
        None => owned_strings(&vec!["workspace", "root"]),
    };
    assert(string_views(args@) =~= workspace_root_args(opt_view(name)));
    JjCommand { args, color: false, quiet: true }
}

/// The root that the output of `jj workspace root` gives: the output without its
/// final line ending.
pub open spec fn root_of_output(output: Result<String, CommandError>) -> Result<
    Seq<char>,
    CommandError,
> {
    match output {
        Ok(s) => Ok(remove_end_line(s@)),
        Err(e) => Err(e),
    }
}

impl Commander {
    /// Get the absolute root path of a workspace. With `name = None`, returns
    /// the current workspace's root. Maps to `jj workspace root [--name <NAME>]`.
    ///
    /// This is the command to run; `workspace_root_from_output` reads its output.
    pub fn get_workspace_root(&self, name: Option<&str>) -> (c: JjCommand)
        ensures
            is_reading_command(c, workspace_root_args(opt_view(name))),
    {
        workspace_root_command(name)
    }

    /// The root that `get_workspace_root`'s command printed, or its error.
    pub fn workspace_root_from_output(output: Result<String, CommandError>) -> (r: Result<
        String,
        CommandError,
    >)
        ensures
            r matches Ok(s) ==> root_of_output(output) == Ok::<Seq<char>, CommandError>(s@),
            r matches Err(e) ==> root_of_output(output) == Err::<Seq<char>, CommandError>(e),
    {
        match output {
            Ok(s) => Ok(remove_end_line_of(s.as_str())),
            Err(e) => Err(e),
        }
    }

    /// Add a new workspace.
    /// Maps to `jj workspace add <PATH> [--name <NAME>] [-r <REVISION>]`.
    ///
    /// This is the command to run; `command_status` reads its outcome.
    pub fn run_workspace_add(&self, path: &str, name: Option<&str>, revision: Option<&str>) -> (c:
        JjCommand)
        ensures
            is_changing_command(c, workspace_add_args(path@, opt_view(name), opt_view(revision))),
    {
        let mut args = owned_strings(&vec!["workspace", "add"]);
        let ghost a0 = string_views(args@);
        if let Some(name) = name {
            args.push(String::from_str("--name"));
            args.push(String::from_str(name));
        }
        let ghost a1 = string_views(args@);
        assert(a1 =~= a0 + (match opt_view(name) {
            Some(n) => seq!["--name"@, n],
            None => seq![],
        }));
        if let Some(revision) = revision {
            args.push(String::from_str("-r"));
            args.push(String::from_str(revision));
        }
        let ghost a2 = string_views(args@);
        assert(a2 =~= a1 + (match opt_view(revision) {
            Some(r) => seq!["-r"@, r],
            None => seq![],
        }));
        args.push(String::from_str(path));
        assert(string_views(args@) =~= workspace_add_args(
            path@,
            opt_view(name),
            opt_view(revision),
        ));
        JjCommand { args, color: true, quiet: true }
    }

    /// Forget a workspace. Does not remove the on-disk directory.
    /// Maps to `jj workspace forget <NAME>`.
    pub fn run_workspace_forget(&self, name: &str) -> (c: JjCommand)
        ensures
            is_changing_command(c, seq!["workspace"@, "forget"@, name@]),
    {
        let args = owned_strings(&vec!["workspace", "forget", name]);
        assert(string_views(args@) =~= seq!["workspace"@, "forget"@, name@]);
        JjCommand { args, color: true, quiet: true }
    }

    /// Rename the *current* workspace. jj only supports renaming the workspace
    /// you're attached to; renaming another requires running jj from inside it.
    /// Maps to `jj workspace rename <NEW_NAME>`.
    pub fn run_workspace_rename(&self, new_name: &str) -> (c: JjCommand)
        ensures
            is_changing_command(c, seq!["workspace"@, "rename"@, new_name@]),
    {
        let args = owned_strings(&vec!["workspace", "rename", new_name]);
        assert(string_views(args@) =~= seq!["workspace"@, "rename"@, new_name@]);
        JjCommand { args, color: true, quiet: true }
    }

    /// Bring a stale workspace up to date with the recorded working-copy commit.
    /// Maps to `jj workspace update-stale` (run inside the target workspace).
    pub fn run_workspace_update_stale(&self) -> (c: JjCommand)
        ensures
            is_changing_command(c, seq!["workspace"@, "update-stale"@]),
    {
        let args = owned_strings(&vec!["workspace", "update-stale"]);
        assert(string_views(args@) =~= seq!["workspace"@, "update-stale"@]);
        JjCommand { args, color: true, quiet: true }
    }
}

// ---------------------------------------------------------------------------
// Listing the workspaces

/// Names what `std::path::Path`'s `==` says of the paths `a` and `b`: whether
/// their components are the same.
pub uninterp spec fn paths_equal(a: Seq<char>, b: Seq<char>) -> bool;

/// Compares two paths as `std::path::Path` does (component by component).
///
/// Claims of `Path::eq` that its result depends on the two paths alone, and that
/// a path equals itself; which different spellings it takes as the same path
/// (a trailing `/`, a `.` component) is left unsaid.
#[verifier::external_body]
fn same_path(a: &str, b: &str) -> (r: bool)
    ensures
        r == paths_equal(a@, b@),
        a@ == b@ ==> r,
{
    std::path::Path::new(a) == std::path::Path::new(b)
}

/// Whether a workspace whose root is `root` is the one lazyjj is attached to,
/// given the current workspace's root (`None` when it could not be found): the
/// current root is known, not empty, and the same path.
pub open spec fn is_current_root(current: Option<Seq<char>>, root: Seq<char>) -> bool {
    current matches Some(c) && c.len() > 0 && paths_equal(c, root)
}

/// The root of a workspace as `jj workspace root --name` printed it: empty when
/// the command failed.
pub open spec fn root_or_empty(output: Result<String, CommandError>) -> Seq<char> {
    match output {
        Ok(s) => remove_end_line(s@),
        Err(_) => seq![],
    }
}

/// The workspace that the listing's fields, its root, and the current root make.
pub open spec fn workspace_of(f: WorkspaceFields, root: Seq<char>, current: Option<Seq<char>>) -> WorkspaceView {
    WorkspaceView {
        name: f.name,
        change_id_short: f.change_id_short,
        commit_id_short: f.commit_id_short,
        empty: f.empty,
        description: f.description,
        root,
        is_current: is_current_root(current, root),
    }
}

/// Whether the current workspace's root is known, not empty, and spelled as
/// `root` is: such a workspace is the current one.
pub open spec fn root_is_current_text(current: Option<String>, root: Seq<char>) -> bool {
    current matches Some(c) && c@.len() > 0 && c@ == root
}

/// Where a listing of the workspaces stands.
pub enum ListingStage {
    /// Waiting for `jj workspace list`.
    List,
    /// Waiting for the current workspace's root.
    CurrentRoot,
    /// Waiting for the root of the next workspace in `entries`.
    Roots,
    /// Done.
    Finished,
}

/// A listing of the workspaces: the entries read from `jj workspace list`, the
/// current workspace's root, and the roots found so far, one per entry.
pub struct WorkspaceListing {
    pub stage: ListingStage,
    pub entries: Vec<WorkspaceEntry>,
    pub current_root: Option<String>,
    pub roots: Vec<String>,
}

/// What the caller does next for a listing: run `jj` and hand its output to
/// `WorkspaceListing::step`, or take the result.
pub enum ListingStep {
    Run(JjCommand),
    Done(Result<Vec<Workspace>, CommandError>),
}

/// The view of an optional string.
pub open spec fn opt_string_view(s: Option<String>) -> Option<Seq<char>> {
    match s {
        Some(s) => Some(s@),
        None => None,
    }
}

impl WorkspaceListing {
    /// The listing has a root to wait for while it waits for roots.
    pub open spec fn wf(&self) -> bool {
        self.stage is Roots ==> self.roots@.len() < self.entries@.len()
    }

    /// The workspaces that the listing's entries and roots make.
    pub open spec fn workspaces(&self) -> Seq<WorkspaceView> {
        Seq::new(
            self.entries@.len(),
            |i: int|
                workspace_of(
                    self.entries@[i]@,
                    self.roots@[i]@,
                    opt_string_view(self.current_root),
                ),
        )
    }

    /// The workspaces made of the entries and the roots.
    fn build(&self) -> (ws: Vec<Workspace>)
        requires
            self.roots@.len() == self.entries@.len(),
        ensures
            workspace_views(ws@) == self.workspaces(),
            forall|i: int|
                0 <= i < ws@.len() && root_is_current_text(self.current_root, self.roots@[i]@)
                    ==> #[trigger] ws@[i].is_current,
    {
        let mut ws: Vec<Workspace> = Vec::new();
        let mut i: usize = 0;
        while i < self.entries.len()
            invariant
                i <= self.entries@.len() == self.roots@.len(),
                workspace_views(ws@) == self.workspaces().take(i as int),
                ws@.len() == i,
                forall|j: int|
                    0 <= j < i && root_is_current_text(self.current_root, self.roots@[j]@)
                        ==> #[trigger] ws@[j].is_current,
            decreases self.entries@.len() - i,
        {
            let e = &self.entries[i];
            let root = self.roots[i].clone();
            let is_current = match &self.current_root {
                Some(current) => !current.as_str().is_empty() && same_path(
                    current.as_str(),
                    root.as_str(),
                ),
                None => false,
            };
            let ghost before = ws@;
            ws.push(
                Workspace {
                    name: e.name.clone(),
                    change_id_short: e.change_id_short.clone(),
                    commit_id_short: e.commit_id_short.clone(),
                    empty: e.empty,
                    description: e.description.clone(),
                    root,
                    is_current,
                },
            );
            assert(workspace_views(ws@) =~= workspace_views(before).push(ws@[i as int]@));
            assert(workspace_views(ws@) =~= self.workspaces().take(i + 1));
            i += 1;
        }
        ws
    }
}

impl Commander {
    /// Get all workspaces, with their working-copy commits and a flag indicating
    /// which workspace lazyjj is currently attached to. Maps to
    /// `jj workspace list -T ...` plus `jj workspace root`, once for the current
    /// workspace and once for each workspace listed.
    ///
    /// Starts the listing: the caller runs the command returned and continues
    /// with `WorkspaceListing::step`.
    pub fn get_workspaces(&self) -> (r: (WorkspaceListing, JjCommand))
        ensures
            r.0.stage is List,
            r.0.wf(),
            is_reading_command(r.1, workspace_list_args()),
    {
        let args = owned_strings(
            &vec![
                "workspace",
                "list",
                "-T",
                "\"[\" ++ name ++ \"|\" ++ target.change_id().short() ++ \"|\" ++ target.commit_id().short() ++ \"|\" ++ if(target.empty(), \"true\", \"false\") ++ \"|\" ++ target.description().first_line() ++ \"]\\n\"",
            ],
        );
        assert(string_views(args@) =~= workspace_list_args());
        (
            WorkspaceListing {
                stage: ListingStage::List,
                entries: Vec::new(),
                current_root: None,
                roots: Vec::new(),
            },
            JjCommand { args, color: false, quiet: true },
        )
    }
}

impl WorkspaceListing {
    /// Takes the output of the `jj` command that the previous step asked for and
    /// says what comes next.
    ///
    /// The listing's output gives the entries (lines that do not match the
    /// template are skipped) and an error ends the listing with that error; the
    /// current root's output is kept when it succeeded; a workspace whose root
    /// cannot be found gets an empty root. With every root found, the result is
    /// the entries in order, each with its root and whether it is the current one.
    pub fn step(&mut self, output: Result<String, CommandError>) -> (r: ListingStep)
        requires
            old(self).wf(),
            !(old(self).stage is Finished),
        ensures
            final(self).wf(),
            old(self).stage is List ==> match output {
                Err(e) => r == ListingStep::Done(Err(e)) && final(self).stage is Finished,
                Ok(text) => {
                    &&& entry_views(final(self).entries@) == workspace_entries(lines(text@))
                    &&& final(self).stage is CurrentRoot
                    &&& r matches ListingStep::Run(c) && is_reading_command(
                        c,
                        workspace_root_args(None),
                    )
                },
            },
            old(self).stage is CurrentRoot ==> {
                &&& final(self).entries == old(self).entries
                &&& opt_string_view(final(self).current_root) == (match root_of_output(output) {
                    Ok(root) => Some(root),
                    Err(_) => None,
                })
                &&& final(self).roots@.len() == 0
                &&& old(self).entries@.len() == 0 ==> final(self).stage is Finished && (r
                    matches ListingStep::Done(Ok(ws)) && ws@.len() == 0)
                &&& old(self).entries@.len() > 0 ==> final(self).stage is Roots && (r
                    matches ListingStep::Run(c) && is_reading_command(
                    c,
                    workspace_root_args(Some(old(self).entries@[0].name@)),
                ))
            },
            old(self).stage is Roots ==> {
                let k = old(self).roots@.len();
                &&& final(self).entries == old(self).entries
                &&& final(self).current_root == old(self).current_root
                &&& final(self).roots@.len() == k + 1
                &&& final(self).roots@.take(k as int) == old(self).roots@
                &&& final(self).roots@[k as int]@ == root_or_empty(output)
                &&& k + 1 == old(self).entries@.len() ==> final(self).stage is Finished && (r
                    matches ListingStep::Done(Ok(ws)) && workspace_views(ws@)
                    == final(self).workspaces() && forall|i: int|
                    0 <= i < ws@.len() && root_is_current_text(
                        final(self).current_root,
                        final(self).roots@[i]@,
                    ) ==> #[trigger] ws@[i].is_current)
                &&& k + 1 < old(self).entries@.len() ==> final(self).stage is Roots && (r
                    matches ListingStep::Run(c) && is_reading_command(
                    c,
                    workspace_root_args(Some(old(self).entries@[k + 1 as int].name@)),
                ))
            },
    {
        match self.stage {
            ListingStage::List => match output {
                Err(e) => {
                    self.stage = ListingStage::Finished;
                    ListingStep::Done(Err(e))
                },
                Ok(text) => {
                    self.entries = parse_workspace_list(text.as_str());
                    self.stage = ListingStage::CurrentRoot;
                    ListingStep::Run(workspace_root_command(None))
                },
            },
            ListingStage::CurrentRoot => {
                self.current_root = match output {
                    Ok(s) => Some(remove_end_line_of(s.as_str())),
                    Err(_) => None,
                };
                self.roots = Vec::new();
                if self.entries.len() == 0 {
                    self.stage = ListingStage::Finished;
                    ListingStep::Done(Ok(Vec::new()))
                } else {
                    self.stage = ListingStage::Roots;
                    ListingStep::Run(workspace_root_command(Some(self.entries[0].name.as_str())))
                }
            },
            ListingStage::Roots => {
                let root = match output {
                    Ok(s) => remove_end_line_of(s.as_str()),
                    Err(_) => String::new(),
                };
                let ghost before = self.roots@;
                self.roots.push(root);
                assert(self.roots@.take(before.len() as int) == before);
                let k = self.roots.len();
                if k == self.entries.len() {
                    self.stage = ListingStage::Finished;
                    ListingStep::Done(Ok(self.build()))
                } else {
                    ListingStep::Run(workspace_root_command(Some(self.entries[k].name.as_str())))
                }
            },
            ListingStage::Finished => ListingStep::Done(Ok(Vec::new())),
        }
    }
}

/// The root of the first workspace whose working-copy commit is `commit_id`:
/// the first one whose short commit id is not empty and begins `commit_id`.
pub open spec fn owner_root(ws: Seq<WorkspaceView>, commit_id: Seq<char>) -> Option<Seq<char>>
    decreases ws.len(),
{
    if ws.len() == 0 {
        None
    } else if ws[0].commit_id_short.len() > 0 && starts_with(commit_id, ws[0].commit_id_short) {
        Some(ws[0].root)
    } else {
        owner_root(ws.drop_first(), commit_id)
    }
}

impl Commander {
    /// Find the workspace whose working-copy commit (`<name>@`) is the given
    /// commit. Returns the workspace's root, or `None` if no workspace points at
    /// this commit. Used to copy the absolute path of the workspace that "owns"
    /// a selected change in the log.
    ///
    /// `workspaces` is the result of `get_workspaces`; its error is passed on.
    /// `commit_id` is the full commit hash or a prefix of it: a workspace's short
    /// id matches when it begins `commit_id`.
    #[verifier::loop_isolation(false)]
    pub fn get_workspace_root_for_commit(
        &self,
        workspaces: Result<Vec<Workspace>, CommandError>,
        commit_id: &str,
    ) -> (r: Result<Option<String>, CommandError>)
        ensures
            workspaces matches Err(e) ==> r == Err::<Option<String>, CommandError>(e),
            workspaces matches Ok(ws) ==> r matches Ok(root) && opt_string_view(root) == owner_root(
                workspace_views(ws@),
                commit_id@,
            ),
    {
        let ws = match workspaces {
            Ok(ws) => ws,
            Err(e) => return Err(e),
        };
        let full = chars_of(commit_id);
        let ghost all = workspace_views(ws@);
        let mut i: usize = 0;
        assert(all.skip(0) == all);
        while i < ws.len()
            invariant
                i <= ws@.len(),
                all == workspace_views(ws@),
                full@ == commit_id@,
                owner_root(all, commit_id@) == owner_root(all.skip(i as int), commit_id@),
            decreases ws@.len() - i,
        {
            let short = chars_of(ws[i].commit_id_short.as_str());
            assert(all.skip(i as int)[0] == ws@[i as int]@);
            assert(all.skip(i as int).drop_first() == all.skip(i + 1));
            if short.len() != 0 && has_prefix(&full, &short) {
                return Ok(Some(ws[i].root.clone()));
            }
            i += 1;
        }
        Ok(None)
    }
}

/// Every workspace that a listing marks as current has a root that is the same
/// path as the current workspace's root, which is known and not empty; and the
/// listing keeps the order and the fields of the template's lines.
pub proof fn lemma_listing_current(listing: WorkspaceListing, i: int)
    requires
        listing.roots@.len() == listing.entries@.len(),
        0 <= i < listing.entries@.len(),
    ensures
        listing.workspaces()[i].name == listing.entries@[i]@.name,
        listing.workspaces()[i].root == listing.roots@[i]@,
        listing.workspaces()[i].is_current ==> (listing.current_root matches Some(c) && c@.len()
            > 0 && paths_equal(c@, listing.roots@[i]@)),
{
}

} // verus!
